//! The records that extraction produces, and their models.
use vstd::prelude::*;

verus! {

pub open spec fn str_view(s: String) -> Seq<char> {
    s@
}

pub open spec fn opt_str_view(s: Option<String>) -> Option<Seq<char>> {
    match s {
        Some(x) => Some(x@),
        None => None,
    }
}

pub open spec fn strs_view(v: Seq<String>) -> Seq<Seq<char>> {
    v.map_values(|s: String| str_view(s))
}

/// An offer shown on a product page.
pub struct Offer {
    /// Label such as `Bank Offer`; absent when the offer text has none.
    pub category: Option<String>,
    pub description: String,
}

pub struct OfferView {
    pub category: Option<Seq<char>>,
    pub description: Seq<char>,
}

impl View for Offer {
    type V = OfferView;

    open spec fn view(&self) -> OfferView {
        OfferView { category: opt_str_view(self.category), description: self.description@ }
    }
}

/// One name and value pair of a specification table.
pub struct Specification {
    pub name: String,
    pub value: String,
}

pub struct SpecificationView {
    pub name: Seq<char>,
    pub value: Seq<char>,
}

impl View for Specification {
    type V = SpecificationView;

    open spec fn view(&self) -> SpecificationView {
        SpecificationView { name: self.name@, value: self.value@ }
    }
}

/// A titled group of specifications, such as `General` or `Display Features`.
pub struct Specifications {
    pub category: String,
    pub specifications: Vec<Specification>,
}

pub struct SpecificationsView {
    pub category: Seq<char>,
    pub specifications: Seq<SpecificationView>,
}

pub open spec fn spec_view(s: Specification) -> SpecificationView {
    s@
}

impl View for Specifications {
    type V = SpecificationsView;

    open spec fn view(&self) -> SpecificationsView {
        SpecificationsView {
            category: self.category@,
            specifications: self.specifications@.map_values(|s: Specification| spec_view(s)),
        }
    }
}

/// The primary seller of a product.
pub struct Seller {
    pub name: String,
    /// The seller's rating as the page writes it; always a valid `f32` literal.
    pub rating: Option<String>,
}

pub struct SellerView {
    pub name: Seq<char>,
    pub rating: Option<Seq<char>>,
}

impl View for Seller {
    type V = SellerView;

    open spec fn view(&self) -> SellerView {
        SellerView { name: self.name@, rating: opt_str_view(self.rating) }
    }
}

pub open spec fn offer_view(o: Offer) -> OfferView {
    o@
}

pub open spec fn group_view(g: Specifications) -> SpecificationsView {
    g@
}

pub open spec fn offers_view(v: Seq<Offer>) -> Seq<OfferView> {
    v.map_values(|o: Offer| offer_view(o))
}

pub open spec fn groups_view(v: Seq<Specifications>) -> Seq<SpecificationsView> {
    v.map_values(|g: Specifications| group_view(g))
}

pub open spec fn specs_view(v: Seq<Specification>) -> Seq<SpecificationView> {
    v.map_values(|s: Specification| spec_view(s))
}

} // verus!
