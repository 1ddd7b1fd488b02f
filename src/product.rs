//! A product page turned into a `ProductDetails` record.
use vstd::prelude::*;

use crate::dom::{chars_of, page_of, string_of, Document, NodeView};
use crate::fields::{seller, seller_exec, thumbnails, thumbnails_exec, title, title_exec};
use crate::record::{
    groups_view, offers_view, opt_str_view, strs_view, Offer, OfferView, Seller, SellerView,
    Specifications, SpecificationsView,
};
use crate::scan::{
    lemma_scan_current_within_original, lemma_scan_out_of_stock, price_blocks_in_order, scan,
    scan_exec,
};
use crate::state::{lemma_state_share_nonempty, state_scan, state_scan_exec};
use crate::text::{contains, contains_exec};
use crate::web::{domain_of, url_domain};
use crate::words::Words;

verus! {

/// Why a page could not be turned into a record.
#[derive(Debug, Clone, Copy, PartialEq, Eq)]
pub enum ScrapeError {
    /// The URL has no domain name (it does not parse, or its host is an address).
    InvalidDomain,
    /// The URL's domain is not the store's.
    UnsupportedDomain,
    /// A search URL could not be built from the query.
    InvalidQuery,
    /// The page says that the product was moved or deleted.
    ProductNotFound,
    /// The page is the host's internal server error page.
    ServerError,
}

impl ScrapeError {
    /// A sentence that describes the error.
    pub fn message(&self) -> (r: &'static str)
        ensures
            r@ == match *self {
                ScrapeError::InvalidDomain => "Domain name invalid."@,
                ScrapeError::UnsupportedDomain => "Only flipkart.com is supported"@,
                ScrapeError::InvalidQuery => "Search query could not be put in a URL."@,
                ScrapeError::ProductNotFound => "Link provided doesn't corresponds to any product"@,
                ScrapeError::ServerError => "Internal Server Error. Host is down or is blocking use of this library."@,
            },
    {
        match self {
            ScrapeError::InvalidDomain => "Domain name invalid.",
            ScrapeError::UnsupportedDomain => "Only flipkart.com is supported",
            ScrapeError::InvalidQuery => "Search query could not be put in a URL.",
            ScrapeError::ProductNotFound => "Link provided doesn't corresponds to any product",
            ScrapeError::ServerError => "Internal Server Error. Host is down or is blocking use of this library.",
        }
    }
}

/// The details of a product.
pub struct ProductDetails {
    pub name: Option<String>,
    pub in_stock: bool,
    pub current_price: Option<i32>,
    pub original_price: Option<i32>,
    pub product_id: Option<String>,
    /// Link to the product, usually shorter and cleaner than the one asked for.
    pub share_url: String,
    /// The product's rating as the page writes it; always a valid `f32` literal.
    pub rating: Option<String>,
    pub f_assured: bool,
    pub highlights: Vec<String>,
    pub seller: Option<Seller>,
    pub thumbnails: Vec<String>,
    pub offers: Vec<Offer>,
    pub specifications: Vec<Specifications>,
}

pub struct ProductView {
    pub name: Option<Seq<char>>,
    pub in_stock: bool,
    pub current_price: Option<i32>,
    pub original_price: Option<i32>,
    pub product_id: Option<Seq<char>>,
    pub share_url: Seq<char>,
    pub rating: Option<Seq<char>>,
    pub f_assured: bool,
    pub highlights: Seq<Seq<char>>,
    pub seller: Option<SellerView>,
    pub thumbnails: Seq<Seq<char>>,
    pub offers: Seq<OfferView>,
    pub specifications: Seq<SpecificationsView>,
}

pub open spec fn opt_seller_view(s: Option<Seller>) -> Option<SellerView> {
    match s {
        Some(x) => Some(x@),
        None => None,
    }
}

impl View for ProductDetails {
    type V = ProductView;

    open spec fn view(&self) -> ProductView {
        ProductView {
            name: opt_str_view(self.name),
            in_stock: self.in_stock,
            current_price: self.current_price,
            original_price: self.original_price,
            product_id: opt_str_view(self.product_id),
            share_url: self.share_url@,
            rating: opt_str_view(self.rating),
            f_assured: self.f_assured,
            highlights: strs_view(self.highlights@),
            seller: opt_seller_view(self.seller),
            thumbnails: strs_view(self.thumbnails@),
            offers: offers_view(self.offers@),
            specifications: groups_view(self.specifications@),
        }
    }
}

/// The product is on sale: the page announces neither a coming release nor an empty stock.
pub open spec fn in_stock(body: Seq<char>) -> bool {
    !contains(body, "Coming Soon"@) && !contains(body, "currently out of stock"@)
}

/// The failure a page body announces, if any.
pub open spec fn page_failure(body: Seq<char>) -> Option<ScrapeError> {
    if contains(body, "has been moved or deleted"@) || contains(body, "not right!"@) {
        Some(ScrapeError::ProductNotFound)
    } else if contains(body, "Internal Server Error"@) {
        Some(ScrapeError::ServerError)
    } else {
        None
    }
}

/// Whether `url` may be fetched: it needs a domain, and one within the store's.
pub open spec fn url_failure(url: Seq<char>) -> Option<ScrapeError> {
    if url.len() == 0 {
        Some(ScrapeError::InvalidDomain)
    } else {
        match url_domain(url) {
            None => Some(ScrapeError::InvalidDomain),
            Some(dm) => if contains(dm, "flipkart.com"@) {
                None
            } else {
                Some(ScrapeError::UnsupportedDomain)
            },
        }
    }
}

/// The record of the page `d`, fetched from `url` with the text `body`; `star`
/// is the source of the star icon next to a rating.
pub open spec fn product_of(url: Seq<char>, body: Seq<char>, star: Seq<char>, d: Seq<NodeView>) -> ProductView {
    let stock = in_stock(body);
    let s = scan(d, stock, star, d.len() as int);
    let st = state_scan(d, d.len() as int);
    ProductView {
        name: title(d),
        in_stock: stock,
        current_price: s.current_price,
        original_price: s.original_price,
        product_id: st.0,
        share_url: match st.1 {
            Some(u) => u,
            None => url,
        },
        rating: s.rating,
        f_assured: s.f_assured,
        highlights: s.highlights,
        seller: if stock {
            seller(d)
        } else {
            None
        },
        thumbnails: thumbnails(d),
        offers: s.offers,
        specifications: s.specifications,
    }
}

/// What reading the page `body`, fetched from `url`, gives: the URL's failure,
/// else the body's, else the record of the parsed page.
pub open spec fn page_result(url: Seq<char>, body: Seq<char>, star: Seq<char>) -> Result<
    ProductView,
    ScrapeError,
> {
    match url_failure(url) {
        Some(e) => Err(e),
        None => match page_failure(body) {
            Some(e) => Err(e),
            None => Ok(product_of(url, body, star, page_of(body))),
        },
    }
}

pub open spec fn result_view(r: Result<ProductDetails, ScrapeError>) -> Result<
    ProductView,
    ScrapeError,
> {
    match r {
        Ok(p) => Ok(p@),
        Err(e) => Err(e),
    }
}

impl ProductDetails {
    /// Checks that `url` is a product URL of the store; nothing may be fetched otherwise.
    pub fn check_url(url: &str) -> (r: Result<(), ScrapeError>)
        ensures
            r is Ok <==> url_failure(url@) is None,
            r matches Err(e) ==> url_failure(url@) == Some(e),
    {
        if url.is_empty() {
            return Err(ScrapeError::InvalidDomain);
        }
        match domain_of(url) {
            None => Err(ScrapeError::InvalidDomain),
            Some(dm) => {
                let site = chars_of("flipkart.com");
                if contains_exec(&chars_of(dm.as_str()), &site) {
                    Ok(())
                } else {
                    Err(ScrapeError::UnsupportedDomain)
                }
            },
        }
    }

    /// Checks a fetched body for the store's not-found and server-error pages.
    pub fn check_body(body: &str) -> (r: Result<(), ScrapeError>)
        ensures
            r is Ok <==> page_failure(body@) is None,
            r matches Err(e) ==> page_failure(body@) == Some(e),
    {
        let b = chars_of(body);
        if contains_exec(&b, &chars_of("has been moved or deleted")) || contains_exec(
            &b,
            &chars_of("not right!"),
        ) {
            Err(ScrapeError::ProductNotFound)
        } else if contains_exec(&b, &chars_of("Internal Server Error")) {
            Err(ScrapeError::ServerError)
        } else {
            Ok(())
        }
    }

    /// The record of a parsed page.
    pub fn from_document(url: &str, body: &str, star_icon: &str, doc: &Document) -> (r:
        ProductDetails)
        ensures
            r@ == product_of(url@, body@, star_icon@, doc@),
    {
        let w = Words::new();
        let b = chars_of(body);
        let stock = !contains_exec(&b, &chars_of("Coming Soon")) && !contains_exec(
            &b,
            &chars_of("currently out of stock"),
        );
        let star = chars_of(star_icon);
        let s = scan_exec(doc, &w, stock, &star);
        let (product_id, share) = state_scan_exec(doc, &w);
        let share_url = match share {
            Some(u) => u,
            None => string_of(&chars_of(url)),
        };
        let seller = if stock {
            seller_exec(doc, &w)
        } else {
            None
        };
        ProductDetails {
            name: title_exec(doc, &w),
            in_stock: stock,
            current_price: s.current_price,
            original_price: s.original_price,
            product_id,
            share_url,
            rating: s.rating,
            f_assured: s.f_assured,
            highlights: s.highlights,
            seller,
            thumbnails: thumbnails_exec(doc, &w),
            offers: s.offers,
            specifications: s.specifications,
        }
    }

    /// The record of the page `body` fetched from `url`. The URL is checked
    /// first, then the body's failure signatures; only then is the page read.
    pub fn from_page(url: &str, body: &str, star_icon: &str) -> (r: Result<
        ProductDetails,
        ScrapeError,
    >)
        ensures
            result_view(r) == page_result(url@, body@, star_icon@),
    {
        match ProductDetails::check_url(url) {
            Err(e) => return Err(e),
            Ok(()) => {},
        }
        match ProductDetails::check_body(body) {
            Err(e) => return Err(e),
            Ok(()) => {},
        }
        let doc = Document::parse(body);
        Ok(ProductDetails::from_document(url, body, star_icon, &doc))
    }
}

/// On a page whose product is not on sale, the seller, the rating, both prices
/// and the f-assured flag stay unset, whatever else the page holds.
pub proof fn lemma_out_of_stock_fields_unset(
    url: Seq<char>,
    body: Seq<char>,
    star: Seq<char>,
    d: Seq<NodeView>,
)
    requires
        !in_stock(body),
    ensures
        product_of(url, body, star, d).seller is None,
        product_of(url, body, star, d).rating is None,
        product_of(url, body, star, d).current_price is None,
        product_of(url, body, star, d).original_price is None,
        !product_of(url, body, star, d).f_assured,
{
    lemma_scan_out_of_stock(d, star, d.len() as int);
}

/// The share URL of a record is never empty: it is the page's share link when
/// one is found, and else the URL that was asked for.
pub proof fn lemma_share_url_never_empty(
    url: Seq<char>,
    body: Seq<char>,
    star: Seq<char>,
    d: Seq<NodeView>,
)
    requires
        url_failure(url) is None,
    ensures
        product_of(url, body, star, d).share_url.len() > 0,
        state_scan(d, d.len() as int).1 is None ==> product_of(url, body, star, d).share_url
            == url,
{
    lemma_state_share_nonempty(d, d.len() as int);
}

/// When both prices are found, the current price is not above the original
/// price, on every page whose price blocks list the current price first and
/// the original price after it.
pub proof fn lemma_current_not_above_original(
    url: Seq<char>,
    body: Seq<char>,
    star: Seq<char>,
    d: Seq<NodeView>,
)
    requires
        price_blocks_in_order(d),
    ensures
        match (product_of(url, body, star, d).current_price, product_of(url, body, star, d).original_price) {
            (Some(a), Some(b)) => a <= b,
            _ => true,
        },
{
    lemma_scan_current_within_original(d, in_stock(body), star);
}

/// A URL whose domain is not the store's is refused whatever the page would
/// hold: the refusal does not depend on the body, so nothing needs fetching.
pub proof fn lemma_off_domain_rejected(url: Seq<char>, body: Seq<char>, star: Seq<char>)
    requires
        url.len() > 0,
        url_domain(url) matches Some(dm) && !contains(dm, "flipkart.com"@),
    ensures
        page_result(url, body, star) == Err::<ProductView, ScrapeError>(ScrapeError::UnsupportedDomain),
        url_failure(url) == Some(ScrapeError::UnsupportedDomain),
{
}

/// A body that carries the not-found phrase fails with the not-found error,
/// for every URL of the store.
pub proof fn lemma_not_found_page_fails(url: Seq<char>, body: Seq<char>, star: Seq<char>)
    requires
        url_failure(url) is None,
        contains(body, "has been moved or deleted"@) || contains(body, "not right!"@),
    ensures
        page_result(url, body, star) == Err::<ProductView, ScrapeError>(ScrapeError::ProductNotFound),
{
}

} // verus!
