//! A search results page turned into a list of product summaries.
use vstd::prelude::*;

use crate::dom::{
    attr, chars_of, chars_view, classes_of, end, find_tag, first_text, is_element, is_tag,
    page_of, second_text, string_of, Document, NodeView,
};
use crate::product::ScrapeError;
use crate::scan::{product_prices, product_prices_exec};
use crate::text::{copy_chars, same_chars};
use crate::web::{css_accepts, query_url, selector_parses, url_with_query};
use crate::words::Words;

verus! {

/// A selector for the elements that carry every one of a set of classes.
/// Built from no class at all, it matches nothing.
pub struct ClassSelector {
    pub classes: Vec<Vec<char>>,
}

impl View for ClassSelector {
    type V = Seq<Seq<char>>;

    open spec fn view(&self) -> Seq<Seq<char>> {
        self.classes@.map_values(|c: Vec<char>| chars_view(c))
    }
}

/// The CSS text of a class selector: each class after a dot.
pub open spec fn selector_text(cs: Seq<Seq<char>>) -> Seq<char>
    decreases cs.len(),
{
    if cs.len() == 0 {
        Seq::empty()
    } else {
        selector_text(cs.drop_last()) + seq!['.'] + cs.last()
    }
}

/// A character that may begin a CSS identifier.
pub open spec fn ident_start(c: char) -> bool {
    ('a' <= c && c <= 'z') || ('A' <= c && c <= 'Z') || c == '_' || (c as u32) >= 0x80
}

/// A character that may stand inside a CSS identifier.
pub open spec fn ident_char(c: char) -> bool {
    ident_start(c) || ('0' <= c && c <= '9') || c == '-'
}

/// A class name that is a plain CSS identifier (no escapes), so that `.name`
/// selects exactly the elements with that class.
pub open spec fn is_plain_class(s: Seq<char>) -> bool {
    &&& s.len() > 0
    &&& forall|i: int| 0 <= i < s.len() ==> ident_char(#[trigger] s[i])
    &&& ident_start(s[0]) || (s[0] == '-' && s.len() >= 2 && (ident_start(s[1]) || s[1] == '-'))
}

pub open spec fn all_plain_classes(cs: Seq<Seq<char>>) -> bool {
    forall|i: int| 0 <= i < cs.len() ==> is_plain_class(#[trigger] cs[i])
}

fn is_plain_class_exec(s: &Vec<char>) -> (r: bool)
    ensures
        r == is_plain_class(s@),
{
    let n = s.len();
    if n == 0 {
        return false;
    }
    let mut k: usize = 0;
    while k < n
        invariant
            n == s@.len(),
            k <= n,
            forall|i: int| 0 <= i < k ==> ident_char(#[trigger] s@[i]),
        decreases n - k,
    {
        let c = s[k];
        if !(('a' <= c && c <= 'z') || ('A' <= c && c <= 'Z') || c == '_' || (c as u32) >= 0x80
            || ('0' <= c && c <= '9') || c == '-') {
            assert(!ident_char(s@[k as int]));
            return false;
        }
        k += 1;
    }
    let c0 = s[0];
    let start0 = ('a' <= c0 && c0 <= 'z') || ('A' <= c0 && c0 <= 'Z') || c0 == '_' || (c0 as u32)
        >= 0x80;
    if start0 {
        return true;
    }
    if c0 != '-' || n < 2 {
        return false;
    }
    let c1 = s[1];
    ('a' <= c1 && c1 <= 'z') || ('A' <= c1 && c1 <= 'Z') || c1 == '_' || (c1 as u32) >= 0x80 || c1
        == '-'
}

/// The selector made from classes `cs`: none when a class is not a plain CSS
/// identifier, or when scraper refuses the selector's CSS text.
pub open spec fn build_selector(cs: Seq<Seq<char>>) -> Option<Seq<Seq<char>>> {
    if cs.len() == 0 || (all_plain_classes(cs) && css_accepts(selector_text(cs))) {
        Some(cs)
    } else {
        None
    }
}

/// Node `n` is an element that has every class of `cs`, and `cs` is not empty.
/// Class names compare exactly: scraper matches selectors in no-quirks mode on
/// every page, where classes are case-sensitive.
pub open spec fn has_all_classes(n: NodeView, cs: Seq<Seq<char>>) -> bool {
    is_element(n) && cs.len() > 0 && forall|i: int|
        0 <= i < cs.len() ==> classes_of(n).contains(#[trigger] cs[i])
}

fn has_class(cs: &Vec<Vec<char>>, c: &Vec<char>) -> (r: bool)
    ensures
        r == cs@.map_values(|v: Vec<char>| chars_view(v)).contains(c@),
{
    let ghost cv = cs@.map_values(|v: Vec<char>| chars_view(v));
    let mut k: usize = 0;
    while k < cs.len()
        invariant
            k <= cs@.len(),
            cv == cs@.map_values(|v: Vec<char>| chars_view(v)),
            forall|j: int| 0 <= j < k ==> cv[j] != c@,
        decreases cs.len() - k,
    {
        assert(cv[k as int] == cs@[k as int]@);
        if same_chars(&cs[k], c) {
            assert(cv[k as int] == c@);
            return true;
        }
        k += 1;
    }
    false
}

impl ClassSelector {
    /// Makes the selector of `classes`; fails only where scraper would refuse it.
    pub fn from_classes(classes: &Vec<Vec<char>>) -> (r: Option<ClassSelector>)
        ensures
            r matches Some(s) ==> build_selector(classes@.map_values(|c: Vec<char>| chars_view(c)))
                == Some(s@),
            r is None ==> build_selector(classes@.map_values(|c: Vec<char>| chars_view(c))) is None,
    {
        let ghost cv = classes@.map_values(|c: Vec<char>| chars_view(c));
        let mut copy: Vec<Vec<char>> = Vec::new();
        let mut text: Vec<char> = Vec::new();
        let mut plain = true;
        let mut k: usize = 0;
        while k < classes.len()
            invariant
                k <= classes@.len(),
                plain == all_plain_classes(cv.subrange(0, k as int)),
                cv == classes@.map_values(|c: Vec<char>| chars_view(c)),
                copy@.map_values(|c: Vec<char>| chars_view(c)) == cv.subrange(0, k as int),
                text@ == selector_text(cv.subrange(0, k as int)),
            decreases classes.len() - k,
        {
            let c = copy_chars(&classes[k]);
            let ghost old_plain = plain;
            if !is_plain_class_exec(&c) {
                plain = false;
            }
            let ghost old_copy = copy@;
            let ghost old_text = text@;
            copy.push(copy_chars(&c));
            text.push('.');
            let mut m: usize = 0;
            while m < c.len()
                invariant
                    m <= c@.len(),
                    text@ == old_text + seq!['.'] + c@.subrange(0, m as int),
                decreases c.len() - m,
            {
                text.push(c[m]);
                m += 1;
                assert(text@ =~= old_text + seq!['.'] + c@.subrange(0, m as int));
            }
            assert(c@.subrange(0, m as int) =~= c@);
            k += 1;
            assert(cv.subrange(0, k as int).drop_last() =~= cv.subrange(0, k - 1));
            assert(cv[k - 1] == c@);
            assert(plain == all_plain_classes(cv.subrange(0, k as int))) by {
                let sub = cv.subrange(0, k as int);
                if plain {
                    assert forall|i: int| 0 <= i < sub.len() implies is_plain_class(sub[i]) by {
                        if i < k - 1 {
                            assert(sub[i] == cv.subrange(0, k - 1)[i]);
                        }
                    }
                } else if old_plain {
                    assert(!is_plain_class(sub[k - 1]));
                } else {
                    let j = choose|j: int|
                        0 <= j < k - 1 && !is_plain_class(#[trigger] cv.subrange(0, k - 1)[j]);
                    assert(sub[j] == cv.subrange(0, k - 1)[j]);
                }
            }
            assert(copy@.map_values(|c: Vec<char>| chars_view(c)) =~= cv.subrange(0, k as int));
        }
        assert(cv.subrange(0, k as int) =~= cv);
        if classes.len() == 0 || (plain && selector_parses(string_of(&text).as_str())) {
            Some(ClassSelector { classes: copy })
        } else {
            None
        }
    }

    /// Whether node `k` of `doc` is matched.
    pub fn matches(&self, doc: &Document, k: usize) -> (r: bool)
        requires
            k < doc@.len(),
        ensures
            r == has_all_classes(doc@[k as int], self@),
    {
        let node = match doc.classes(k) {
            Some(c) => c,
            None => return false,
        };
        if self.classes.len() == 0 {
            return false;
        }
        let mut i: usize = 0;
        while i < self.classes.len()
            invariant
                i <= self.classes@.len(),
                node@.map_values(|v: Vec<char>| chars_view(v)) == classes_of(doc@[k as int]),
                forall|j: int| 0 <= j < i ==> classes_of(doc@[k as int]).contains(#[trigger] self@[j]),
            decreases self.classes.len() - i,
        {
            assert(self@[i as int] == self.classes@[i as int]@);
            if !has_class(node, &self.classes[i]) {
                return false;
            }
            i += 1;
        }
        true
    }
}

/// First element in `lo .. hi` that `cs` matches.
pub open spec fn find_classes(d: Seq<NodeView>, lo: int, hi: int, cs: Seq<Seq<char>>) -> Option<
    int,
>
    decreases hi - lo,
{
    if lo >= hi {
        None
    } else if has_all_classes(d[lo], cs) {
        Some(lo)
    } else {
        find_classes(d, lo + 1, hi, cs)
    }
}

fn find_classes_exec(doc: &Document, sel: &ClassSelector, lo: usize, hi: usize) -> (r: Option<usize>)
    requires
        lo <= hi <= doc@.len(),
    ensures
        r matches Some(k) ==> find_classes(doc@, lo as int, hi as int, sel@) == Some(k as int) && lo
            <= k < hi,
        r is None ==> find_classes(doc@, lo as int, hi as int, sel@) is None,
{
    let mut k: usize = lo;
    while k < hi
        invariant
            lo <= k <= hi <= doc@.len(),
            find_classes(doc@, k as int, hi as int, sel@) == find_classes(
                doc@,
                lo as int,
                hi as int,
                sel@,
            ),
        decreases hi - k,
    {
        if sel.matches(doc, k) {
            return Some(k);
        }
        k += 1;
    }
    None
}

/// A product found in search results.
pub struct SearchResult {
    pub product_name: String,
    /// Absolute link to the product page.
    pub product_link: String,
    pub thumbnail: String,
    pub current_price: Option<i32>,
    pub original_price: Option<i32>,
}

pub struct SearchResultView {
    pub product_name: Seq<char>,
    pub product_link: Seq<char>,
    pub thumbnail: Seq<char>,
    pub current_price: Option<i32>,
    pub original_price: Option<i32>,
}

impl View for SearchResult {
    type V = SearchResultView;

    open spec fn view(&self) -> SearchResultView {
        SearchResultView {
            product_name: self.product_name@,
            product_link: self.product_link@,
            thumbnail: self.thumbnail@,
            current_price: self.current_price,
            original_price: self.original_price,
        }
    }
}

/// A link made absolute: a path gets the store's origin in front.
pub open spec fn absolute_link(href: Seq<char>) -> Seq<char> {
    if href.len() > 0 && href[0] == '/' {
        "https://flipkart.com"@ + href
    } else {
        href
    }
}

/// The name under link `l` picked out by the selector: the first matching
/// element's first text, or its second one when the first is the sponsored mark.
pub open spec fn class_text(d: Seq<NodeView>, l: int, cs: Seq<Seq<char>>) -> Option<Seq<char>> {
    match find_classes(d, l + 1, end(d, l), cs) {
        Some(k) => match first_text(d, k) {
            Some(t) => if t == "Sponsored"@ {
                second_text(d, k)
            } else {
                Some(t)
            },
            None => None,
        },
        None => None,
    }
}

/// The name of card `p` with first link `l`: by the selector; else the `title`
/// (or first text) of the card's second link; else the first link's first text.
pub open spec fn card_name(d: Seq<NodeView>, p: int, l: int, cs: Seq<Seq<char>>) -> Option<
    Seq<char>,
> {
    match class_text(d, l, cs) {
        Some(t) => Some(t),
        None => match find_tag(d, l + 1, end(d, p), "a"@) {
            Some(l2) => match attr(d[l2], "title"@) {
                Some(t) => Some(t),
                None => first_text(d, l2),
            },
            None => first_text(d, l),
        },
    }
}

/// The summary of card `p`; none when it lacks a link, a thumbnail or a name.
/// Its prices follow the same rule as a product page's price block.
pub open spec fn card(d: Seq<NodeView>, p: int) -> Option<SearchResultView> {
    match find_tag(d, p + 1, end(d, p), "a"@) {
        None => None,
        Some(l) => match attr(d[l], "href"@) {
            None => None,
            Some(h) => match find_tag(d, l + 1, end(d, l), "img"@) {
                None => None,
                Some(g) => match attr(d[g], "src"@) {
                    None => None,
                    Some(src) => match crate::dom::last_child(d, l) {
                        None => None,
                        Some(lc) => if !is_element(d[lc]) {
                            None
                        } else {
                            match build_selector(classes_of(d[lc])) {
                                None => None,
                                Some(cs) => match card_name(d, p, l, cs) {
                                    None => None,
                                    Some(nm) => {
                                        let pr = product_prices(d, p + 1, end(d, p), None);
                                        Some(
                                            SearchResultView {
                                                product_name: nm,
                                                product_link: absolute_link(h),
                                                thumbnail: src,
                                                current_price: pr.0,
                                                original_price: pr.1,
                                            },
                                        )
                                    },
                                },
                            }
                        },
                    },
                },
            },
        },
    }
}

/// A card: a `div` with a `data-id` attribute.
pub open spec fn is_card(n: NodeView) -> bool {
    is_tag(n, "div"@) && attr(n, "data-id"@) is Some
}

/// The summaries of the cards among the first `m` nodes, in page order.
pub open spec fn results_in(d: Seq<NodeView>, m: int) -> Seq<SearchResultView>
    decreases m,
{
    if m <= 0 {
        Seq::empty()
    } else if is_card(d[m - 1]) && card(d, m - 1) is Some {
        results_in(d, m - 1).push(card(d, m - 1)->0)
    } else {
        results_in(d, m - 1)
    }
}

pub open spec fn results_view(v: Seq<SearchResult>) -> Seq<SearchResultView> {
    v.map_values(|r: SearchResult| r@)
}

fn card_name_exec(doc: &Document, w: &Words, p: usize, l: usize, sel: &ClassSelector) -> (r:
    Option<Vec<char>>)
    requires
        p < l < end(doc@, p as int) <= doc@.len(),
        w.wf(),
    ensures
        r matches Some(t) ==> card_name(doc@, p as int, l as int, sel@) == Some(t@),
        r is None ==> card_name(doc@, p as int, l as int, sel@) is None,
{
    let el = doc.subtree_end(l);
    let by_class = match find_classes_exec(doc, sel, l + 1, el) {
        Some(k) => match doc.first_text(k) {
            Some(t) => if same_chars(&t, &w.sponsored) {
                doc.second_text(k)
            } else {
                Some(t)
            },
            None => None,
        },
        None => None,
    };
    if by_class.is_some() {
        return by_class;
    }
    let ep = doc.subtree_end(p);
    match doc.find_tag(l + 1, ep, &w.a) {
        Some(l2) => match doc.attr(l2, &w.title) {
            Some(t) => Some(copy_chars(t)),
            None => doc.first_text(l2),
        },
        None => doc.first_text(l),
    }
}

fn card_exec(doc: &Document, w: &Words, p: usize) -> (r: Option<SearchResult>)
    requires
        p < doc@.len(),
        w.wf(),
    ensures
        r matches Some(x) ==> card(doc@, p as int) == Some(x@),
        r is None ==> card(doc@, p as int) is None,
{
    let ep = doc.subtree_end(p);
    let l = match doc.find_tag(p + 1, ep, &w.a) {
        Some(l) => l,
        None => return None,
    };
    let h = match doc.attr(l, &w.href) {
        Some(h) => h,
        None => return None,
    };
    let el = doc.subtree_end(l);
    let g = match doc.find_tag(l + 1, el, &w.img) {
        Some(g) => g,
        None => return None,
    };
    let src = match doc.attr(g, &w.src) {
        Some(s) => s,
        None => return None,
    };
    let lc = match doc.last_child(l) {
        Some(lc) => lc,
        None => return None,
    };
    let classes = match doc.classes(lc) {
        Some(c) => c,
        None => return None,
    };
    let sel = match ClassSelector::from_classes(classes) {
        Some(s) => s,
        None => return None,
    };
    proof {
        crate::dom::lemma_end_bounds(doc@, p as int);
    }
    let name = match card_name_exec(doc, w, p, l, &sel) {
        Some(n) => n,
        None => return None,
    };
    let (c, o) = product_prices_exec(doc, w, p + 1, ep, None);
    let link = if h.len() > 0 && h[0] == '/' {
        let mut s = copy_chars(&w.site);
        let mut m: usize = 0;
        let ghost base = s@;
        while m < h.len()
            invariant
                m <= h@.len(),
                s@ == base + h@.subrange(0, m as int),
            decreases h.len() - m,
        {
            s.push(h[m]);
            m += 1;
            assert(s@ =~= base + h@.subrange(0, m as int));
        }
        assert(h@.subrange(0, m as int) =~= h@);
        s
    } else {
        copy_chars(h)
    };
    Some(
        SearchResult {
            product_name: string_of(&name),
            product_link: string_of(&link),
            thumbnail: string_of(src),
            current_price: c,
            original_price: o,
        },
    )
}

/// The summaries of all cards of a parsed results page, in page order.
pub fn results_exec(doc: &Document) -> (r: Vec<SearchResult>)
    ensures
        results_view(r@) == results_in(doc@, doc@.len() as int),
{
    let w = Words::new();
    let mut r: Vec<SearchResult> = Vec::new();
    let mut m: usize = 0;
    while m < doc.len()
        invariant
            m <= doc@.len(),
            w.wf(),
            results_view(r@) == results_in(doc@, m as int),
        decreases doc@.len() - m,
    {
        if doc.is_tag(m, &w.div) && doc.attr(m, &w.data_id).is_some() {
            match card_exec(doc, &w, m) {
                Some(x) => {
                    let ghost old_r = r@;
                    let ghost xv = x@;
                    r.push(x);
                    assert(results_view(r@) =~= results_view(old_r).push(xv));
                },
                None => {},
            }
        }
        m += 1;
    }
    r
}

/// The results of one search.
pub struct ProductSearch {
    /// The query as asked.
    pub query: String,
    /// The URL of the results page.
    pub query_url: String,
    pub results: Vec<SearchResult>,
}

pub struct ProductSearchView {
    pub query: Seq<char>,
    pub query_url: Seq<char>,
    pub results: Seq<SearchResultView>,
}

impl View for ProductSearch {
    type V = ProductSearchView;

    open spec fn view(&self) -> ProductSearchView {
        ProductSearchView {
            query: self.query@,
            query_url: self.query_url@,
            results: results_view(self.results@),
        }
    }
}

/// The store's search endpoint; the query goes in its `q` parameter.
pub open spec fn search_base() -> Seq<char> {
    "https://www.flipkart.com/search?marketplace=FLIPKART"@
}

/// What a search for `query` whose results page is `body` gives.
pub open spec fn search_result(query: Seq<char>, body: Seq<char>) -> Result<
    ProductSearchView,
    ScrapeError,
> {
    match url_with_query(search_base(), "q"@, query) {
        None => Err(ScrapeError::InvalidQuery),
        Some(u) => Ok(
            ProductSearchView { query, query_url: u, results: results_in(page_of(body), page_of(body).len() as int) },
        ),
    }
}

pub open spec fn search_view(r: Result<ProductSearch, ScrapeError>) -> Result<
    ProductSearchView,
    ScrapeError,
> {
    match r {
        Ok(s) => Ok(s@),
        Err(e) => Err(e),
    }
}

impl ProductSearch {
    /// The URL of the results page for `query`.
    pub fn search_url(query: &str) -> (r: Result<String, ScrapeError>)
        ensures
            r is Ok,
            match r {
                Ok(u) => url_with_query(search_base(), "q"@, query@) == Some(u@),
                Err(e) => url_with_query(search_base(), "q"@, query@) is None && e
                    == ScrapeError::InvalidQuery,
            },
    {
        match query_url("https://www.flipkart.com/search?marketplace=FLIPKART", "q", query) {
            Some(u) => Ok(u),
            None => Err(ScrapeError::InvalidQuery),
        }
    }

    /// The results of a search for `query`, read from its results page `body`.
    pub fn search_doc(query: String, body: String) -> (r: Result<ProductSearch, ScrapeError>)
        ensures
            r is Ok,
            search_view(r) == search_result(query@, body@),
    {
        let query_url = match ProductSearch::search_url(query.as_str()) {
            Ok(u) => u,
            Err(e) => return Err(e),
        };
        let doc = Document::parse(body.as_str());
        let results = results_exec(&doc);
        Ok(ProductSearch { query, query_url, results })
    }

    pub fn len(&self) -> (r: usize)
        ensures
            r == self.results@.len(),
    {
        self.results.len()
    }
}

} // verus!
