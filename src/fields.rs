//! The rules that each read one field of a product page.
use vstd::prelude::*;

use crate::dom::{
    all_text, attr, end, find_attr, find_tag, first_child, first_text, is_tag, is_text, next_sibling,
    prev_sibling, string_of, text_of, Document, NodeView,
};
use crate::number::{is_float_literal, is_float_literal_exec};
use crate::record::{
    groups_view, offers_view, opt_str_view, specs_view, strs_view, Offer, OfferView, Seller,
    SellerView, Specification, SpecificationView, Specifications, SpecificationsView,
};
use crate::text::{trim, trim_chars};
use crate::words::Words;

verus! {

// ---- highlights ----

/// Texts of the `li` elements in `lo .. m`.
pub open spec fn li_texts(d: Seq<NodeView>, lo: int, m: int) -> Seq<Seq<char>>
    decreases m - lo,
{
    if m <= lo {
        Seq::empty()
    } else if is_tag(d[m - 1], "li"@) {
        li_texts(d, lo, m - 1).push(all_text(d, m - 1))
    } else {
        li_texts(d, lo, m - 1)
    }
}

/// The items of the first list under node `k`.
pub open spec fn highlights_at(d: Seq<NodeView>, k: int) -> Seq<Seq<char>> {
    match find_tag(d, k + 1, end(d, k), "ul"@) {
        Some(u) => li_texts(d, u + 1, end(d, u)),
        None => Seq::empty(),
    }
}

pub fn highlights_at_exec(doc: &Document, w: &Words, k: usize) -> (r: Vec<String>)
    requires
        k < doc@.len(),
        w.wf(),
    ensures
        strs_view(r@) == highlights_at(doc@, k as int),
{
    let e = doc.subtree_end(k);
    match doc.find_tag(k + 1, e, &w.ul) {
        None => Vec::new(),
        Some(u) => {
            let eu = doc.subtree_end(u);
            let mut r: Vec<String> = Vec::new();
            let mut m: usize = u + 1;
            while m < eu
                invariant
                    u < m <= eu <= doc@.len(),
                    eu == end(doc@, u as int),
                    w.wf(),
                    strs_view(r@) == li_texts(doc@, u + 1, m as int),
                decreases eu - m,
            {
                if doc.is_tag(m, &w.li) {
                    let t = doc.all_text(m);
                    let s = string_of(&t);
                    let ghost old_r = r@;
                    r.push(s);
                    assert(strs_view(r@) =~= strs_view(old_r).push(s@));
                }
                m += 1;
            }
            r
        },
    }
}

// ---- offers ----

/// The offer of one list item: the first `span` is a category when a `span`
/// follows it whose first child is text (the description); otherwise its text
/// is the description, without a category.
pub open spec fn offer_at(d: Seq<NodeView>, li: int) -> Option<OfferView> {
    match find_tag(d, li + 1, end(d, li), "span"@) {
        None => None,
        Some(c) => match next_sibling(d, c) {
            None => None,
            Some(s) => if is_tag(d[s], "span"@) {
                match first_child(d, s) {
                    Some(f) => if is_text(d[f]) {
                        Some(OfferView { category: Some(all_text(d, c)), description: text_of(d[f]) })
                    } else {
                        None
                    },
                    None => None,
                }
            } else {
                Some(OfferView { category: None, description: all_text(d, c) })
            },
        },
    }
}

/// The offers of the `li` elements in `lo .. m`.
pub open spec fn offers_in(d: Seq<NodeView>, lo: int, m: int) -> Seq<OfferView>
    decreases m - lo,
{
    if m <= lo {
        Seq::empty()
    } else if is_tag(d[m - 1], "li"@) && offer_at(d, m - 1) is Some {
        offers_in(d, lo, m - 1).push(offer_at(d, m - 1)->0)
    } else {
        offers_in(d, lo, m - 1)
    }
}

pub open spec fn offers_at(d: Seq<NodeView>, k: int) -> Seq<OfferView> {
    offers_in(d, k + 1, end(d, k))
}

fn offer_at_exec(doc: &Document, w: &Words, li: usize) -> (r: Option<Offer>)
    requires
        li < doc@.len(),
        w.wf(),
    ensures
        r matches Some(o) ==> offer_at(doc@, li as int) == Some(o@),
        r is None ==> offer_at(doc@, li as int) is None,
{
    let e = doc.subtree_end(li);
    let c = match doc.find_tag(li + 1, e, &w.span) {
        Some(c) => c,
        None => return None,
    };
    let s = match doc.next_sibling(c) {
        Some(s) => s,
        None => return None,
    };
    let cat = doc.all_text(c);
    if doc.is_tag(s, &w.span) {
        match doc.first_child(s) {
            Some(f) => match doc.text_node(f) {
                Some(t) => Some(Offer { category: Some(string_of(&cat)), description: string_of(t) }),
                None => None,
            },
            None => None,
        }
    } else {
        Some(Offer { category: None, description: string_of(&cat) })
    }
}

pub fn offers_at_exec(doc: &Document, w: &Words, k: usize) -> (r: Vec<Offer>)
    requires
        k < doc@.len(),
        w.wf(),
    ensures
        offers_view(r@) == offers_at(doc@, k as int),
{
    let e = doc.subtree_end(k);
    let mut r: Vec<Offer> = Vec::new();
    let mut m: usize = k + 1;
    while m < e
        invariant
            k < m <= e <= doc@.len(),
            e == end(doc@, k as int),
            w.wf(),
            offers_view(r@) == offers_in(doc@, k + 1, m as int),
        decreases e - m,
    {
        if doc.is_tag(m, &w.li) {
            match offer_at_exec(doc, w, m) {
                Some(o) => {
                    let ghost old_r = r@;
                    let ghost ov = o@;
                    r.push(o);
                    assert(offers_view(r@) =~= offers_view(old_r).push(ov));
                },
                None => {},
            }
        }
        m += 1;
    }
    r
}

// ---- specifications ----

/// A table row's first two cells as a name and a value.
pub open spec fn row_at(d: Seq<NodeView>, r: int) -> Option<SpecificationView> {
    match find_tag(d, r + 1, end(d, r), "td"@) {
        Some(x) => match find_tag(d, x + 1, end(d, r), "td"@) {
            Some(y) => Some(SpecificationView { name: all_text(d, x), value: all_text(d, y) }),
            None => None,
        },
        None => None,
    }
}

/// The rows with two cells among the `tr` elements in `lo .. m`.
pub open spec fn rows_in(d: Seq<NodeView>, lo: int, m: int) -> Seq<SpecificationView>
    decreases m - lo,
{
    if m <= lo {
        Seq::empty()
    } else if is_tag(d[m - 1], "tr"@) && row_at(d, m - 1) is Some {
        rows_in(d, lo, m - 1).push(row_at(d, m - 1)->0)
    } else {
        rows_in(d, lo, m - 1)
    }
}

/// A table whose previous sibling starts with a text child, which names the group.
pub open spec fn group_at(d: Seq<NodeView>, t: int) -> Option<SpecificationsView> {
    match prev_sibling(d, t) {
        Some(p) => match first_child(d, p) {
            Some(f) => if is_text(d[f]) {
                Some(
                    SpecificationsView {
                        category: text_of(d[f]),
                        specifications: rows_in(d, t + 1, end(d, t)),
                    },
                )
            } else {
                None
            },
            None => None,
        },
        None => None,
    }
}

pub open spec fn groups_in(d: Seq<NodeView>, lo: int, m: int) -> Seq<SpecificationsView>
    decreases m - lo,
{
    if m <= lo {
        Seq::empty()
    } else if is_tag(d[m - 1], "table"@) && group_at(d, m - 1) is Some {
        groups_in(d, lo, m - 1).push(group_at(d, m - 1)->0)
    } else {
        groups_in(d, lo, m - 1)
    }
}

pub open spec fn specifications_at(d: Seq<NodeView>, k: int) -> Seq<SpecificationsView> {
    groups_in(d, k + 1, end(d, k))
}

fn row_at_exec(doc: &Document, w: &Words, r: usize) -> (o: Option<Specification>)
    requires
        r < doc@.len(),
        w.wf(),
    ensures
        o matches Some(s) ==> row_at(doc@, r as int) == Some(s@),
        o is None ==> row_at(doc@, r as int) is None,
{
    let e = doc.subtree_end(r);
    match doc.find_tag(r + 1, e, &w.td) {
        Some(x) => match doc.find_tag(x + 1, e, &w.td) {
            Some(y) => {
                let name = doc.all_text(x);
                let value = doc.all_text(y);
                Some(Specification { name: string_of(&name), value: string_of(&value) })
            },
            None => None,
        },
        None => None,
    }
}

fn group_at_exec(doc: &Document, w: &Words, t: usize) -> (o: Option<Specifications>)
    requires
        t < doc@.len(),
        w.wf(),
    ensures
        o matches Some(g) ==> group_at(doc@, t as int) == Some(g@),
        o is None ==> group_at(doc@, t as int) is None,
{
    let p = match doc.prev_sibling(t) {
        Some(p) => p,
        None => return None,
    };
    let f = match doc.first_child(p) {
        Some(f) => f,
        None => return None,
    };
    let category = match doc.text_node(f) {
        Some(c) => string_of(c),
        None => return None,
    };
    let e = doc.subtree_end(t);
    let mut rows: Vec<Specification> = Vec::new();
    let mut m: usize = t + 1;
    while m < e
        invariant
            t < m <= e <= doc@.len(),
            e == end(doc@, t as int),
            w.wf(),
            specs_view(rows@) == rows_in(doc@, t + 1, m as int),
        decreases e - m,
    {
        if doc.is_tag(m, &w.tr) {
            match row_at_exec(doc, w, m) {
                Some(s) => {
                    let ghost old_r = rows@;
                    let ghost sv = s@;
                    rows.push(s);
                    assert(specs_view(rows@) =~= specs_view(old_r).push(sv));
                },
                None => {},
            }
        }
        m += 1;
    }
    Some(Specifications { category, specifications: rows })
}

pub fn specifications_at_exec(doc: &Document, w: &Words, k: usize) -> (r: Vec<Specifications>)
    requires
        k < doc@.len(),
        w.wf(),
    ensures
        groups_view(r@) == specifications_at(doc@, k as int),
{
    let e = doc.subtree_end(k);
    let mut r: Vec<Specifications> = Vec::new();
    let mut m: usize = k + 1;
    while m < e
        invariant
            k < m <= e <= doc@.len(),
            e == end(doc@, k as int),
            w.wf(),
            groups_view(r@) == groups_in(doc@, k + 1, m as int),
        decreases e - m,
    {
        if doc.is_tag(m, &w.table) {
            match group_at_exec(doc, w, m) {
                Some(g) => {
                    let ghost old_r = r@;
                    let ghost gv = g@;
                    r.push(g);
                    assert(groups_view(r@) =~= groups_view(old_r).push(gv));
                },
                None => {},
            }
        }
        m += 1;
    }
    r
}

// ---- thumbnails ----

/// The `src` of each `img` element in `lo .. m` that has one.
pub open spec fn img_srcs(d: Seq<NodeView>, lo: int, m: int) -> Seq<Seq<char>>
    decreases m - lo,
{
    if m <= lo {
        Seq::empty()
    } else if is_tag(d[m - 1], "img"@) && attr(d[m - 1], "src"@) is Some {
        img_srcs(d, lo, m - 1).push(attr(d[m - 1], "src"@)->0)
    } else {
        img_srcs(d, lo, m - 1)
    }
}

/// The image sources under each `li` element in `lo .. m`, list item by list item.
pub open spec fn list_srcs(d: Seq<NodeView>, lo: int, m: int) -> Seq<Seq<char>>
    decreases m - lo,
{
    if m <= lo {
        Seq::empty()
    } else if is_tag(d[m - 1], "li"@) {
        list_srcs(d, lo, m - 1) + img_srcs(d, m, end(d, m - 1))
    } else {
        list_srcs(d, lo, m - 1)
    }
}

/// A list with no text of its own but with images: the thumbnail rail.
pub open spec fn is_thumbnail_list(d: Seq<NodeView>, k: int) -> bool {
    is_tag(d[k], "ul"@) && trim(all_text(d, k)).len() == 0 && list_srcs(d, k + 1, end(d, k)).len()
        > 0
}

/// The images of the first thumbnail rail at or after position `k`.
pub open spec fn thumbnails_from(d: Seq<NodeView>, k: int) -> Seq<Seq<char>>
    decreases d.len() - k,
{
    if k < 0 || k >= d.len() {
        Seq::empty()
    } else if is_thumbnail_list(d, k) {
        list_srcs(d, k + 1, end(d, k))
    } else {
        thumbnails_from(d, k + 1)
    }
}

pub open spec fn thumbnails(d: Seq<NodeView>) -> Seq<Seq<char>> {
    thumbnails_from(d, 0)
}

fn img_srcs_exec(doc: &Document, w: &Words, lo: usize, hi: usize, r: &mut Vec<String>)
    requires
        lo <= hi <= doc@.len(),
        w.wf(),
    ensures
        strs_view(final(r)@) == strs_view(old(r)@) + img_srcs(doc@, lo as int, hi as int),
{
    let ghost base = strs_view(r@);
    let mut m: usize = lo;
    while m < hi
        invariant
            lo <= m <= hi <= doc@.len(),
            w.wf(),
            strs_view(r@) == base + img_srcs(doc@, lo as int, m as int),
        decreases hi - m,
    {
        if doc.is_tag(m, &w.img) {
            match doc.attr(m, &w.src) {
                Some(s) => {
                    let ghost old_r = r@;
                    let v = string_of(s);
                    r.push(v);
                    assert(strs_view(r@) =~= strs_view(old_r).push(v@));
                    assert(base + img_srcs(doc@, lo as int, m + 1) =~= (base + img_srcs(
                        doc@,
                        lo as int,
                        m as int,
                    )).push(v@));
                },
                None => {},
            }
        }
        m += 1;
    }
}

fn list_srcs_exec(doc: &Document, w: &Words, u: usize) -> (r: Vec<String>)
    requires
        u < doc@.len(),
        w.wf(),
    ensures
        strs_view(r@) == list_srcs(doc@, u + 1, end(doc@, u as int)),
{
    let e = doc.subtree_end(u);
    let mut r: Vec<String> = Vec::new();
    let mut m: usize = u + 1;
    assert(strs_view(r@) =~= Seq::<Seq<char>>::empty());
    while m < e
        invariant
            u < m <= e <= doc@.len(),
            e == end(doc@, u as int),
            w.wf(),
            strs_view(r@) == list_srcs(doc@, u + 1, m as int),
        decreases e - m,
    {
        if doc.is_tag(m, &w.li) {
            let el = doc.subtree_end(m);
            img_srcs_exec(doc, w, m + 1, el, &mut r);
        }
        m += 1;
    }
    r
}

pub fn thumbnails_exec(doc: &Document, w: &Words) -> (r: Vec<String>)
    requires
        w.wf(),
    ensures
        strs_view(r@) == thumbnails(doc@),
{
    let mut k: usize = 0;
    while k < doc.len()
        invariant
            k <= doc@.len(),
            w.wf(),
            thumbnails_from(doc@, k as int) == thumbnails(doc@),
        decreases doc@.len() - k,
    {
        if doc.is_tag(k, &w.ul) {
            let t = doc.all_text(k);
            let tt = trim_chars(&t);
            if tt.len() == 0 {
                let r = list_srcs_exec(doc, w, k);
                if r.len() > 0 {
                    return r;
                }
            }
        }
        k += 1;
    }
    Vec::new()
}

// ---- title ----

/// The text of the first `h1`, else of the first `title`.
pub open spec fn title(d: Seq<NodeView>) -> Option<Seq<char>> {
    match find_tag(d, 0, d.len() as int, "h1"@) {
        Some(k) => Some(all_text(d, k)),
        None => match find_tag(d, 0, d.len() as int, "title"@) {
            Some(k) => Some(all_text(d, k)),
            None => None,
        },
    }
}

pub fn title_exec(doc: &Document, w: &Words) -> (r: Option<String>)
    requires
        w.wf(),
    ensures
        opt_str_view(r) == title(doc@),
{
    let n = doc.len();
    match doc.find_tag(0, n, &w.h1) {
        Some(k) => Some(string_of(&doc.all_text(k))),
        None => match doc.find_tag(0, n, &w.title) {
            Some(k) => Some(string_of(&doc.all_text(k))),
            None => None,
        },
    }
}

// ---- seller ----

/// The seller block is the first element with id `sellerName`. The name is the
/// first text of its first `span`, else the trimmed text of its first `div`;
/// the rating is that trimmed `div` text when it reads as a number.
pub open spec fn seller(d: Seq<NodeView>) -> Option<SellerView> {
    match find_attr(d, 0, d.len() as int, "id"@, "sellerName"@) {
        None => None,
        Some(s) => {
            let e = end(d, s);
            let from_span = match find_tag(d, s + 1, e, "span"@) {
                Some(x) => first_text(d, x),
                None => None,
            };
            let div_text = match find_tag(d, s + 1, e, "div"@) {
                Some(y) => Some(trim(all_text(d, y))),
                None => None,
            };
            let name = if from_span is Some {
                from_span
            } else {
                div_text
            };
            match name {
                None => None,
                Some(nm) => Some(
                    SellerView {
                        name: nm,
                        rating: match div_text {
                            Some(t) => if is_float_literal(t) {
                                Some(t)
                            } else {
                                None
                            },
                            None => None,
                        },
                    },
                ),
            }
        },
    }
}

pub fn seller_exec(doc: &Document, w: &Words) -> (r: Option<Seller>)
    requires
        w.wf(),
    ensures
        r matches Some(s) ==> seller(doc@) == Some(s@),
        r is None ==> seller(doc@) is None,
{
    let n = doc.len();
    let s = match doc.find_attr(0, n, &w.id, &w.seller_name) {
        Some(s) => s,
        None => return None,
    };
    let e = doc.subtree_end(s);
    let from_span = match doc.find_tag(s + 1, e, &w.span) {
        Some(x) => doc.first_text(x),
        None => None,
    };
    let div_text = match doc.find_tag(s + 1, e, &w.div) {
        Some(y) => Some(trim_chars(&doc.all_text(y))),
        None => None,
    };
    let rating = match &div_text {
        Some(t) => if is_float_literal_exec(t) {
            Some(string_of(t))
        } else {
            None
        },
        None => None,
    };
    match from_span {
        Some(nm) => Some(Seller { name: string_of(&nm), rating }),
        None => match div_text {
            Some(nm) => Some(Seller { name: string_of(&nm), rating }),
            None => None,
        },
    }
}

} // verus!
