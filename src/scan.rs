//! The single forward pass over a product page's `div` elements, which fills
//! highlights, offers, specifications, rating, the f-assured flag and the prices.
use vstd::prelude::*;

use crate::dom::{
    all_text, attr, end, find_tag, first_text, is_tag, lemma_end_bounds, string_of, Document, NodeView,
};
use crate::fields::{
    highlights_at, highlights_at_exec, offers_at, offers_at_exec, specifications_at,
    specifications_at_exec,
};
use crate::number::{is_float_literal, is_float_literal_exec, parse_i32, parse_i32_exec};
use crate::record::{
    groups_view, offers_view, opt_str_view, strs_view, Offer, OfferView, Specifications,
    SpecificationsView,
};
use crate::text::{
    contains, contains_exec, same_chars, slice, starts_with, starts_with_exec, trim, trim_chars,
    without_char, without_char_exec,
};
use crate::words::Words;

verus! {

/// The figure a price element shows: its text must start with the currency
/// sign and hold no second one; the rest, without thousands separators, is
/// read as an integer (`None` inside when it does not read).
pub open spec fn price_figure(d: Seq<NodeView>, q: int) -> Option<Option<i32>> {
    let t = all_text(d, q);
    if !starts_with(t, "₹"@) {
        None
    } else {
        let rest = t.subrange("₹"@.len() as int, t.len() as int);
        if contains(rest, "₹"@) {
            None
        } else {
            Some(parse_i32(without_char(rest, ',')))
        }
    }
}

pub fn price_figure_exec(doc: &Document, w: &Words, q: usize) -> (r: Option<Option<i32>>)
    requires
        q < doc@.len(),
        w.wf(),
    ensures
        r == price_figure(doc@, q as int),
{
    let t = doc.all_text(q);
    if !starts_with_exec(&t, &w.rupee) {
        return None;
    }
    let rest = slice(&t, w.rupee.len(), t.len());
    if contains_exec(&rest, &w.rupee) {
        return None;
    }
    let digits = without_char_exec(&rest, ',');
    Some(parse_i32_exec(&digits))
}

/// The prices that the `div` elements in `lo .. m` give, starting from a
/// current price `cur`: the first figure is the current price, the next the
/// original price (the current price when that figure does not read).
pub open spec fn product_prices(d: Seq<NodeView>, lo: int, m: int, cur: Option<i32>) -> (
    Option<i32>,
    Option<i32>,
)
    decreases m - lo,
{
    if m <= lo {
        (cur, None)
    } else {
        let (c, o) = product_prices(d, lo, m - 1, cur);
        if o is Some || !is_tag(d[m - 1], "div"@) {
            (c, o)
        } else {
            match price_figure(d, m - 1) {
                None => (c, o),
                Some(p) => if c is None {
                    (p, None)
                } else {
                    (
                        c,
                        Some(
                            match p {
                                Some(v) => v,
                                None => c->0,
                            },
                        ),
                    )
                },
            }
        }
    }
}

pub fn product_prices_exec(doc: &Document, w: &Words, lo: usize, hi: usize, cur: Option<i32>) -> (r: (
    Option<i32>,
    Option<i32>,
))
    requires
        lo <= hi <= doc@.len(),
        w.wf(),
    ensures
        r == product_prices(doc@, lo as int, hi as int, cur),
{
    let mut c = cur;
    let mut o: Option<i32> = None;
    let mut m: usize = lo;
    while m < hi
        invariant
            lo <= m <= hi <= doc@.len(),
            w.wf(),
            (c, o) == product_prices(doc@, lo as int, m as int, cur),
        decreases hi - m,
    {
        if o.is_none() && doc.is_tag(m, &w.div) {
            match price_figure_exec(doc, w, m) {
                None => {},
                Some(p) => {
                    match c {
                        None => {
                            c = p;
                        },
                        Some(cv) => {
                            o = Some(
                                match p {
                                    Some(v) => v,
                                    None => cv,
                                },
                            );
                        },
                    }
                },
            }
        }
        m += 1;
    }
    (c, o)
}

/// The rating next to the star icon: when the first image under node `k` is
/// the star, the element's leading text, if it reads as a number. Without a
/// star signature (empty once trimmed) no rating is read.
pub open spec fn rating_at(d: Seq<NodeView>, k: int, text: Seq<char>, star: Seq<char>) -> Option<
    Seq<char>,
> {
    match find_tag(d, k + 1, end(d, k), "img"@) {
        Some(g) => match attr(d[g], "src"@) {
            Some(s) => if trim(star).len() > 0 && trim(s) == trim(star) && is_float_literal(text) {
                Some(text)
            } else {
                None
            },
            None => None,
        },
        None => None,
    }
}

fn rating_at_exec(doc: &Document, w: &Words, k: usize, text: &Vec<char>, star: &Vec<char>) -> (r:
    Option<String>)
    requires
        k < doc@.len(),
        w.wf(),
    ensures
        opt_str_view(r) == rating_at(doc@, k as int, text@, star@),
{
    let e = doc.subtree_end(k);
    match doc.find_tag(k + 1, e, &w.img) {
        Some(g) => match doc.attr(g, &w.src) {
            Some(s) => {
                let ts = trim_chars(s);
                let tstar = trim_chars(star);
                if tstar.len() > 0 && same_chars(&ts, &tstar) && is_float_literal_exec(text) {
                    Some(string_of(text))
                } else {
                    None
                }
            },
            None => None,
        },
        None => None,
    }
}

/// An image whose source names the f-assured badge.
pub open spec fn is_f_assured_icon(n: NodeView) -> bool {
    is_tag(n, "img"@) && match attr(n, "src"@) {
        Some(s) => contains(s, "fa_62673a.png"@),
        None => false,
    }
}

/// Some image in `lo .. m` shows the f-assured badge.
pub open spec fn has_f_assured_icon(d: Seq<NodeView>, lo: int, m: int) -> bool
    decreases m - lo,
{
    if m <= lo {
        false
    } else {
        has_f_assured_icon(d, lo, m - 1) || is_f_assured_icon(d[m - 1])
    }
}

fn has_f_assured_icon_exec(doc: &Document, w: &Words, lo: usize, hi: usize) -> (r: bool)
    requires
        lo <= hi <= doc@.len(),
        w.wf(),
    ensures
        r == has_f_assured_icon(doc@, lo as int, hi as int),
{
    let mut found = false;
    let mut m: usize = lo;
    while m < hi
        invariant
            lo <= m <= hi <= doc@.len(),
            w.wf(),
            found == has_f_assured_icon(doc@, lo as int, m as int),
        decreases hi - m,
    {
        if doc.is_tag(m, &w.img) {
            match doc.attr(m, &w.src) {
                Some(s) => {
                    if contains_exec(s, &w.f_assured_icon) {
                        found = true;
                    }
                },
                None => {},
            }
        }
        m += 1;
    }
    found
}

/// The leading text of node `k`, trimmed; empty when it has none.
pub open spec fn lead_text(d: Seq<NodeView>, k: int) -> Seq<char> {
    match first_text(d, k) {
        Some(t) => trim(t),
        None => Seq::empty(),
    }
}

/// What the pass has gathered so far.
pub struct Scan {
    pub highlights: Vec<String>,
    pub offers: Vec<Offer>,
    pub specifications: Vec<Specifications>,
    pub rating: Option<String>,
    pub f_assured: bool,
    pub current_price: Option<i32>,
    pub original_price: Option<i32>,
}

pub struct ScanView {
    pub highlights: Seq<Seq<char>>,
    pub offers: Seq<OfferView>,
    pub specifications: Seq<SpecificationsView>,
    pub rating: Option<Seq<char>>,
    pub f_assured: bool,
    pub current_price: Option<i32>,
    pub original_price: Option<i32>,
}

impl View for Scan {
    type V = ScanView;

    open spec fn view(&self) -> ScanView {
        ScanView {
            highlights: strs_view(self.highlights@),
            offers: offers_view(self.offers@),
            specifications: groups_view(self.specifications@),
            rating: opt_str_view(self.rating),
            f_assured: self.f_assured,
            current_price: self.current_price,
            original_price: self.original_price,
        }
    }
}

pub open spec fn empty_scan() -> ScanView {
    ScanView {
        highlights: Seq::empty(),
        offers: Seq::empty(),
        specifications: Seq::empty(),
        rating: None,
        f_assured: false,
        current_price: None,
        original_price: None,
    }
}

/// The rules applied to one `div`, in order, each at most once a page: a rule
/// whose field is already filled is skipped. Offers, rating, f-assured and
/// prices are read only when the product is in stock.
pub open spec fn step(d: Seq<NodeView>, in_stock: bool, star: Seq<char>, s: ScanView, k: int) -> ScanView {
    let text = lead_text(d, k);
    let highlights = if s.highlights.len() == 0 && starts_with(text, "Highlights"@) {
        highlights_at(d, k)
    } else {
        s.highlights
    };
    let offers = if in_stock && s.offers.len() == 0 && starts_with(text, "Available offers"@) {
        offers_at(d, k)
    } else {
        s.offers
    };
    let specifications = if s.specifications.len() == 0 && starts_with(text, "Specifications"@) {
        specifications_at(d, k)
    } else {
        s.specifications
    };
    if !in_stock {
        ScanView { highlights, offers, specifications, ..s }
    } else {
        let rating = if s.rating is None {
            rating_at(d, k, text, star)
        } else {
            s.rating
        };
        let f_assured = s.f_assured || (s.current_price is None && has_f_assured_icon(
            d,
            k + 1,
            end(d, k),
        ));
        let prices = if s.original_price is None && starts_with(text, "₹"@) {
            product_prices(d, k + 1, end(d, k), s.current_price)
        } else {
            (s.current_price, s.original_price)
        };
        ScanView {
            highlights,
            offers,
            specifications,
            rating,
            f_assured,
            current_price: prices.0,
            original_price: prices.1,
        }
    }
}

/// The pass over the first `m` nodes.
pub open spec fn scan(d: Seq<NodeView>, in_stock: bool, star: Seq<char>, m: int) -> ScanView
    decreases m,
{
    if m <= 0 {
        empty_scan()
    } else if is_tag(d[m - 1], "div"@) {
        step(d, in_stock, star, scan(d, in_stock, star, m - 1), m - 1)
    } else {
        scan(d, in_stock, star, m - 1)
    }
}

fn step_exec(
    doc: &Document,
    w: &Words,
    in_stock: bool,
    star: &Vec<char>,
    s: &mut Scan,
    k: usize,
)
    requires
        k < doc@.len(),
        w.wf(),
    ensures
        final(s)@ == step(doc@, in_stock, star@, old(s)@, k as int),
{
    let text = match doc.first_text(k) {
        Some(t) => trim_chars(&t),
        None => Vec::new(),
    };
    let ghost s0 = s@;
    if s.highlights.len() == 0 && starts_with_exec(&text, &w.highlights) {
        s.highlights = highlights_at_exec(doc, w, k);
    }
    if in_stock && s.offers.len() == 0 && starts_with_exec(&text, &w.offers) {
        s.offers = offers_at_exec(doc, w, k);
    }
    if s.specifications.len() == 0 && starts_with_exec(&text, &w.specifications) {
        s.specifications = specifications_at_exec(doc, w, k);
    }
    if !in_stock {
        return ;
    }
    if s.rating.is_none() {
        s.rating = rating_at_exec(doc, w, k, &text, star);
    }
    let e = doc.subtree_end(k);
    if s.current_price.is_none() && has_f_assured_icon_exec(doc, w, k + 1, e) {
        s.f_assured = true;
    }
    if s.original_price.is_none() && starts_with_exec(&text, &w.rupee) {
        let (c, o) = product_prices_exec(doc, w, k + 1, e, s.current_price);
        s.current_price = c;
        s.original_price = o;
    }
}

pub fn scan_exec(doc: &Document, w: &Words, in_stock: bool, star: &Vec<char>) -> (r: Scan)
    requires
        w.wf(),
    ensures
        r@ == scan(doc@, in_stock, star@, doc@.len() as int),
{
    let mut s = Scan {
        highlights: Vec::new(),
        offers: Vec::new(),
        specifications: Vec::new(),
        rating: None,
        f_assured: false,
        current_price: None,
        original_price: None,
    };
    assert(s@.highlights =~= Seq::<Seq<char>>::empty());
    assert(s@.offers =~= Seq::<OfferView>::empty());
    assert(s@.specifications =~= Seq::<SpecificationsView>::empty());
    let mut m: usize = 0;
    while m < doc.len()
        invariant
            m <= doc@.len(),
            w.wf(),
            s@ == scan(doc@, in_stock, star@, m as int),
        decreases doc@.len() - m,
    {
        if doc.is_tag(m, &w.div) {
            step_exec(doc, w, in_stock, star, &mut s, m);
        }
        m += 1;
    }
    s
}

/// Out of stock, the pass leaves rating, f-assured flag and prices unset.
pub proof fn lemma_scan_out_of_stock(d: Seq<NodeView>, star: Seq<char>, m: int)
    ensures
        scan(d, false, star, m).rating is None,
        !scan(d, false, star, m).f_assured,
        scan(d, false, star, m).current_price is None,
        scan(d, false, star, m).original_price is None,
    decreases m,
{
    if m > 0 {
        lemma_scan_out_of_stock(d, star, m - 1);
    }
}


/// Node `q` is a `div` whose price figure reads as a number.
pub open spec fn readable_price(d: Seq<NodeView>, q: int) -> bool {
    is_tag(d[q], "div"@) && price_figure(d, q) matches Some(Some(_))
}

/// The number that the readable price element `q` shows.
pub open spec fn price_value(d: Seq<NodeView>, q: int) -> i32 {
    price_figure(d, q)->0->0
}

/// `q1` is the first readable price element after position `k1`.
pub open spec fn first_price_after(d: Seq<NodeView>, k1: int, q1: int) -> bool {
    k1 < q1 < d.len() && readable_price(d, q1) && (forall|q: int|
        k1 < q < q1 ==> !readable_price(d, q))
}


/// Within `lo .. hi`, readable price figures never decrease.
pub open spec fn ascending_in(d: Seq<NodeView>, lo: int, hi: int) -> bool {
    forall|q1: int, q2: int|
        lo <= q1 < q2 < hi && #[trigger] readable_price(d, q1) && #[trigger] readable_price(d, q2)
            ==> price_value(d, q1) <= price_value(d, q2)
}

/// Node `q` is a `div` that shows a price figure, readable or not.
pub open spec fn shows_price(d: Seq<NodeView>, q: int) -> bool {
    is_tag(d[q], "div"@) && price_figure(d, q) is Some
}

/// A price block lists its prices in order: it shows no readable figure, or
/// its readable figures ascend and a second figure follows the first readable one.
pub open spec fn price_block_in_order(d: Seq<NodeView>, k: int) -> bool {
    let e = end(d, k);
    (forall|q: int| k < q < e ==> !readable_price(d, q)) || (ascending_in(d, k + 1, e) && exists|
        q1: int,
        q2: int,
    | q1 < q2 < e && #[trigger] first_price_after(d, k, q1) && #[trigger] shows_price(d, q2))
}

/// Every price block of the page (a `div` whose leading text starts with the
/// currency sign) lists the current price first and the original price after it.
pub open spec fn price_blocks_in_order(d: Seq<NodeView>) -> bool {
    forall|k: int|
        0 <= k < d.len() && is_tag(d[k], "div"@) && starts_with(lead_text(d, k), "₹"@)
            ==> #[trigger] price_block_in_order(d, k)
}

proof fn lemma_block_prices(d: Seq<NodeView>, lo: int, m: int)
    requires
        0 <= lo <= m <= d.len(),
        ascending_in(d, lo, m),
    ensures
        ({
            let (c, o) = product_prices(d, lo, m, None);
            &&& c is None ==> forall|q: int| lo <= q < m ==> !readable_price(d, q)
            &&& c is Some ==> exists|q: int| lo <= q < m && readable_price(d, q)
            &&& o matches Some(b) ==> c matches Some(a) && a <= b
            &&& c matches Some(a) ==> exists|q1: int|
                lo <= q1 < m && readable_price(d, q1) && price_value(d, q1) == a
        }),
    decreases m - lo,
{
    if m > lo {
        assert(ascending_in(d, lo, m - 1));
        lemma_block_prices(d, lo, m - 1);
        let (c, o) = product_prices(d, lo, m - 1, None);
        if o is None && is_tag(d[m - 1], "div"@) {
            match price_figure(d, m - 1) {
                None => {},
                Some(p) => {
                    if c is None {
                        if p is Some {
                            assert(readable_price(d, m - 1));
                        }
                    } else {
                        let a = c->0;
                        let q1 = choose|q1: int|
                            lo <= q1 < m - 1 && readable_price(d, q1) && price_value(d, q1) == a;
                        if p is Some {
                            assert(readable_price(d, m - 1));
                            assert(price_value(d, q1) <= price_value(d, m - 1));
                        }
                    }
                },
            }
        }
    }
}

proof fn lemma_block_second_figure(d: Seq<NodeView>, lo: int, m: int, q1: int, q2: int)
    requires
        0 <= lo <= q1 < q2 < m <= d.len(),
        ascending_in(d, lo, m),
        readable_price(d, q1),
        shows_price(d, q2),
    ensures
        product_prices(d, lo, m, None).1 is Some,
    decreases m - lo,
{
    if m - 1 > q2 {
        assert(ascending_in(d, lo, m - 1));
        lemma_block_second_figure(d, lo, m - 1, q1, q2);
    } else {
        assert(ascending_in(d, lo, m - 1));
        lemma_block_prices(d, lo, m - 1);
    }
}

/// With price blocks in order, the pass gives an original price only together
/// with a current price that is not above it.
proof fn lemma_scan_blocks(d: Seq<NodeView>, in_stock: bool, star: Seq<char>, m: int)
    requires
        0 <= m <= d.len(),
        price_blocks_in_order(d),
    ensures
        ({
            let s = scan(d, in_stock, star, m);
            (s.current_price is None && s.original_price is None) || (s.current_price matches Some(
                a,
            ) && s.original_price matches Some(b) && a <= b)
        }),
    decreases m,
{
    if m > 0 {
        lemma_scan_blocks(d, in_stock, star, m - 1);
        let s = scan(d, in_stock, star, m - 1);
        let k = m - 1;
        lemma_end_bounds(d, k);
        if is_tag(d[k], "div"@) && in_stock && s.original_price is None && starts_with(
            lead_text(d, k),
            "₹"@,
        ) {
            let e = end(d, k);
            assert(price_block_in_order(d, k));
            if forall|q: int| k < q < e ==> !readable_price(d, q) {
                assert(ascending_in(d, k + 1, e));
                lemma_block_prices(d, k + 1, e);
            } else {
                let (q1, q2) = choose|q1: int, q2: int|
                    q1 < q2 < e && #[trigger] first_price_after(d, k, q1) && #[trigger] shows_price(
                        d,
                        q2,
                    );
                lemma_block_prices(d, k + 1, e);
                lemma_block_second_figure(d, k + 1, e, q1, q2);
            }
        }
    }
}

/// When price blocks list their prices in order, a current price found with an
/// original price is never above it.
pub proof fn lemma_scan_current_within_original(d: Seq<NodeView>, in_stock: bool, star: Seq<char>)
    requires
        price_blocks_in_order(d),
    ensures
        ({
            let s = scan(d, in_stock, star, d.len() as int);
            match (s.current_price, s.original_price) {
                (Some(a), Some(b)) => a <= b,
                _ => true,
            }
        }),
{
    lemma_scan_blocks(d, in_stock, star, d.len() as int);
}

} // verus!
