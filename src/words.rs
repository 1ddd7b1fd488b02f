//! The fixed words that the extraction rules look for.
use vstd::prelude::*;

use crate::dom::chars_of;

verus! {

pub struct Words {
    pub div: Vec<char>,
    pub span: Vec<char>,
    pub ul: Vec<char>,
    pub li: Vec<char>,
    pub img: Vec<char>,
    pub table: Vec<char>,
    pub tr: Vec<char>,
    pub td: Vec<char>,
    pub a: Vec<char>,
    pub h1: Vec<char>,
    pub title: Vec<char>,
    pub script: Vec<char>,
    pub src: Vec<char>,
    pub href: Vec<char>,
    pub id: Vec<char>,
    pub data_id: Vec<char>,
    pub seller_name: Vec<char>,
    pub highlights: Vec<char>,
    pub offers: Vec<char>,
    pub specifications: Vec<char>,
    pub rupee: Vec<char>,
    pub f_assured_icon: Vec<char>,
    pub state_marker: Vec<char>,
    pub product_id: Vec<char>,
    pub share_marker: Vec<char>,
    pub sponsored: Vec<char>,
    pub site: Vec<char>,
}

impl Words {
    pub open spec fn wf(&self) -> bool {
        &&& self.div@ == "div"@
        &&& self.span@ == "span"@
        &&& self.ul@ == "ul"@
        &&& self.li@ == "li"@
        &&& self.img@ == "img"@
        &&& self.table@ == "table"@
        &&& self.tr@ == "tr"@
        &&& self.td@ == "td"@
        &&& self.a@ == "a"@
        &&& self.h1@ == "h1"@
        &&& self.title@ == "title"@
        &&& self.script@ == "script"@
        &&& self.src@ == "src"@
        &&& self.href@ == "href"@
        &&& self.id@ == "id"@
        &&& self.data_id@ == "data-id"@
        &&& self.seller_name@ == "sellerName"@
        &&& self.highlights@ == "Highlights"@
        &&& self.offers@ == "Available offers"@
        &&& self.specifications@ == "Specifications"@
        &&& self.rupee@ == "₹"@
        &&& self.f_assured_icon@ == "fa_62673a.png"@
        &&& self.state_marker@ == "window.__INITIAL_STATE__"@
        &&& self.product_id@ == "productId"@
        &&& self.share_marker@ == "product.share.pp"@
        &&& self.sponsored@ == "Sponsored"@
        &&& self.site@ == "https://flipkart.com"@
    }

    pub fn new() -> (r: Words)
        ensures
            r.wf(),
    {
        Words {
            div: chars_of("div"),
            span: chars_of("span"),
            ul: chars_of("ul"),
            li: chars_of("li"),
            img: chars_of("img"),
            table: chars_of("table"),
            tr: chars_of("tr"),
            td: chars_of("td"),
            a: chars_of("a"),
            h1: chars_of("h1"),
            title: chars_of("title"),
            script: chars_of("script"),
            src: chars_of("src"),
            href: chars_of("href"),
            id: chars_of("id"),
            data_id: chars_of("data-id"),
            seller_name: chars_of("sellerName"),
            highlights: chars_of("Highlights"),
            offers: chars_of("Available offers"),
            specifications: chars_of("Specifications"),
            rupee: chars_of("₹"),
            f_assured_icon: chars_of("fa_62673a.png"),
            state_marker: chars_of("window.__INITIAL_STATE__"),
            product_id: chars_of("productId"),
            share_marker: chars_of("product.share.pp"),
            sponsored: chars_of("Sponsored"),
            site: chars_of("https://flipkart.com"),
        }
    }
}

} // verus!
