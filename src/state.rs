//! Product id and share link, read from the page's inline state script by
//! looking for marker words (the script is not parsed as data).
use vstd::prelude::*;

use crate::dom::{all_text, chars_of, is_tag, string_of, Document, NodeView};
use crate::record::opt_str_view;
use crate::text::{
    find_char_from, find_char_from_exec, find_from, find_from_exec, rfind_char_before,
    rfind_char_before_exec, slice, starts_with, starts_with_exec, trim, trim_chars,
};
use crate::web::{serialize_url, url_serialization};
use crate::words::Words;

verus! {

pub open spec fn is_quote_or_colon(c: char) -> bool {
    c == '"' || c == ':'
}

pub open spec fn lead_qc(s: Seq<char>, i: int) -> int
    decreases s.len() - i,
{
    if i < 0 || i >= s.len() || !is_quote_or_colon(s[i]) {
        i
    } else {
        lead_qc(s, i + 1)
    }
}

pub open spec fn trail_qc(s: Seq<char>, lo: int, j: int) -> int
    decreases j - lo,
{
    if j <= lo || !is_quote_or_colon(s[j - 1]) {
        j
    } else {
        trail_qc(s, lo, j - 1)
    }
}

/// `s` without quotes and colons at either end.
pub open spec fn trim_quotes(s: Seq<char>) -> Seq<char> {
    let a = lead_qc(s, 0);
    s.subrange(a, trail_qc(s, a, s.len() as int))
}

fn trim_quotes_exec(s: &Vec<char>) -> (r: Vec<char>)
    ensures
        r@ == trim_quotes(s@),
{
    let mut a: usize = 0;
    while a < s.len() && (s[a] == '"' || s[a] == ':')
        invariant
            a <= s@.len(),
            lead_qc(s@, a as int) == lead_qc(s@, 0),
        decreases s.len() - a,
    {
        a += 1;
    }
    let mut b: usize = s.len();
    while b > a && (s[b - 1] == '"' || s[b - 1] == ':')
        invariant
            a <= b <= s@.len(),
            trail_qc(s@, a as int, b as int) == trail_qc(s@, a as int, s@.len() as int),
        decreases b,
    {
        b -= 1;
    }
    slice(s, a, b)
}

/// The id after position `p`: surrounding space, quotes and colons cut, up to the next quote.
pub open spec fn id_after(t: Seq<char>, p: int) -> Option<Seq<char>> {
    let r = trim_quotes(trim(t.subrange(p, t.len() as int)));
    match find_char_from(r, '"', 0) {
        Some(q) => Some(r.subrange(0, q)),
        None => None,
    }
}

/// The product id of a state script, or `pid` when the script names none.
pub open spec fn product_id_in(t: Seq<char>, pid: Option<Seq<char>>) -> Option<Seq<char>> {
    match find_from(t, "productId"@, 0) {
        Some(p) => if p + "productId"@.len() <= t.len() {
            id_after(t, p + "productId"@.len())
        } else {
            None
        },
        None => pid,
    }
}

/// The first share link in `t` from `start` on. The text is cut into pieces that
/// each end with the share marker (the last piece may lack it); the link of a
/// piece is what follows its last quote, when that reads as an absolute URL.
pub open spec fn share_from(t: Seq<char>, start: int) -> Option<Seq<char>>
    decreases t.len() - start,
{
    if start < 0 || start >= t.len() {
        None
    } else {
        let pe = match find_from(t, "product.share.pp"@, start) {
            Some(p) => p + "product.share.pp"@.len(),
            None => t.len() as int,
        };
        if pe <= start || pe > t.len() {
            None
        } else {
            let cand = match rfind_char_before(t, '"', pe) {
                Some(q) => if q >= start {
                    url_serialization(t.subrange(q + 1, pe))
                } else {
                    None
                },
                None => None,
            };
            match cand {
                Some(u) => if u.len() > 0 {
                    Some(u)
                } else {
                    share_from(t, pe)
                },
                None => share_from(t, pe),
            }
        }
    }
}

fn share_from_exec(t: &Vec<char>, w: &Words, start: usize) -> (r: Option<String>)
    requires
        w.wf(),
    ensures
        opt_str_view(r) == share_from(t@, start as int),
{
    let mut s: usize = start;
    while s < t.len()
        invariant
            start <= s,
            w.wf(),
            share_from(t@, s as int) == share_from(t@, start as int),
        decreases t.len() - s,
    {
        let pe: usize = match find_from_exec(t, &w.share_marker, s) {
            Some(p) => {
                if p > t.len() || w.share_marker.len() > t.len() - p {
                    return None;
                }
                p + w.share_marker.len()
            },
            None => t.len(),
        };
        if pe <= s || pe > t.len() {
            return None;
        }
        let cand = match rfind_char_before_exec(t, '"', pe) {
            Some(q) => if q >= s {
                let piece = slice(t, q + 1, pe);
                serialize_url(string_of(&piece).as_str())
            } else {
                None
            },
            None => None,
        };
        match cand {
            Some(u) => {
                if !u.as_str().is_empty() {
                    return Some(u);
                }
            },
            None => {},
        }
        s = pe;
    }
    None
}

/// Product id and share link gathered from the scripts among the first `m`
/// nodes: each script that starts with the state marker is read, until one
/// yields a share link.
pub open spec fn state_scan(d: Seq<NodeView>, m: int) -> (Option<Seq<char>>, Option<Seq<char>>)
    decreases m,
{
    if m <= 0 {
        (None, None)
    } else {
        let (pid, share) = state_scan(d, m - 1);
        if share is Some || !is_tag(d[m - 1], "script"@) || !starts_with(
            all_text(d, m - 1),
            "window.__INITIAL_STATE__"@,
        ) {
            (pid, share)
        } else {
            let t = all_text(d, m - 1);
            (product_id_in(t, pid), share_from(t, 0))
        }
    }
}

fn product_id_in_exec(t: &Vec<char>, w: &Words, pid: Option<String>) -> (r: Option<String>)
    requires
        w.wf(),
    ensures
        opt_str_view(r) == product_id_in(t@, opt_str_view(pid)),
{
    match find_from_exec(t, &w.product_id, 0) {
        Some(p) => {
            if p > t.len() || w.product_id.len() > t.len() - p {
                return None;
            }
            let rest = slice(t, p + w.product_id.len(), t.len());
            let r = trim_quotes_exec(&trim_chars(&rest));
            match find_char_from_exec(&r, '"', 0) {
                Some(q) => Some(string_of(&slice(&r, 0, q))),
                None => None,
            }
        },
        None => pid,
    }
}

pub fn state_scan_exec(doc: &Document, w: &Words) -> (r: (Option<String>, Option<String>))
    requires
        w.wf(),
    ensures
        (opt_str_view(r.0), opt_str_view(r.1)) == state_scan(doc@, doc@.len() as int),
{
    let mut pid: Option<String> = None;
    let mut share: Option<String> = None;
    let mut m: usize = 0;
    while m < doc.len()
        invariant
            m <= doc@.len(),
            w.wf(),
            (opt_str_view(pid), opt_str_view(share)) == state_scan(doc@, m as int),
        decreases doc@.len() - m,
    {
        if share.is_none() && doc.is_tag(m, &w.script) {
            let t = doc.all_text(m);
            if starts_with_exec(&t, &w.state_marker) {
                pid = product_id_in_exec(&t, w, pid);
                share = share_from_exec(&t, w, 0);
            }
        }
        m += 1;
    }
    (pid, share)
}

/// A share link, when one is found, is never empty.
pub proof fn lemma_share_nonempty(t: Seq<char>, start: int)
    ensures
        share_from(t, start) matches Some(u) ==> u.len() > 0,
    decreases t.len() - start,
{
    if start >= 0 && start < t.len() {
        let pe = match find_from(t, "product.share.pp"@, start) {
            Some(p) => p + "product.share.pp"@.len(),
            None => t.len() as int,
        };
        if pe > start && pe <= t.len() {
            lemma_share_nonempty(t, pe);
        }
    }
}

pub proof fn lemma_state_share_nonempty(d: Seq<NodeView>, m: int)
    ensures
        state_scan(d, m).1 matches Some(u) ==> u.len() > 0,
    decreases m,
{
    if m > 0 {
        lemma_state_share_nonempty(d, m - 1);
        lemma_share_nonempty(all_text(d, m - 1), 0);
    }
}

} // verus!
