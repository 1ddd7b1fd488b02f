//! Structured product records read from an online store's HTML pages.
//!
//! `ProductDetails::from_page` reads a product page and `ProductSearch::search_doc`
//! reads a search results page. Both work on the library's own document model
//! (`dom`), built from scraper's parse of the page, and every extraction rule is
//! stated over that model.
use vstd::prelude::*;

pub mod dom;
pub mod fields;
pub mod number;
pub mod product;
pub mod record;
pub mod request;
pub mod scan;
pub mod search;
pub mod state;
pub mod text;
pub mod web;
pub mod words;

pub use dom::Document;
pub use product::{ProductDetails, ScrapeError};
pub use record::{Offer, Seller, Specification, Specifications};
pub use request::build_headers;
pub use search::{ClassSelector, ProductSearch, SearchResult};

verus! {

} // verus!
