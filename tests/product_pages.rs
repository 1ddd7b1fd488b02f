use flipkart_scraper::{ProductDetails, ScrapeError};

const URL: &str = "https://www.flipkart.com/phone/p/itm1";
const STAR: &str = "STAR";

const PAGE_A: &str = "<!DOCTYPE html><html><head><title>Page Title</title></head><body>\
<h1>Test Phone</h1>\
<div><div>Highlights<ul><li>8 GB RAM</li><li>128 GB ROM</li><li>5000 mAh</li></ul></div></div>\
<div><div>\u{20b9}100</div><div>\u{20b9}150</div></div>\
</body></html>";

const PAGE_FULL: &str = "<!DOCTYPE html><html><head><title>Full Title</title></head><body>\
<ul><li><img src=\"a.jpg\"></li><li><img src=\"b.jpg\"></li></ul>\
<div id=\"sellerName\"><span>RetailNet</span><div> 4.6 </div></div>\
<div>4.3<img src=\" STAR \"></div>\
<div><img src=\"https://img.example/fa_62673a.png\"></div>\
<div><div>\u{20b9}1,299</div><div>\u{20b9}1,999</div></div>\
<div>Available offers<ul><li><span>Bank Offer</span><span>10% off</span></li><li><span>Free delivery</span> on orders</li><li><b>none</b></li></ul></div>\
<div>Specifications<div><div>General</div><table><tr><td>Color</td><td>Black</td></tr><tr><td>Only</td></tr></table><table><tr><td>x</td><td>y</td></tr></table></div></div>\
<script>window.__INITIAL_STATE__ = {\"productId\":\"MOBABC123\",\"x\":\"https://dl.flipkart.com/s/abc?cmpid=product.share.pp\"}</script>\
</body></html>";

#[test]
fn scenario_in_stock_prices_and_highlights() {
    let p = ProductDetails::from_page(URL, PAGE_A, STAR).unwrap();
    assert!(p.in_stock);
    assert_eq!(p.current_price, Some(100));
    assert_eq!(p.original_price, Some(150));
    assert_eq!(p.highlights.len(), 3);
    assert_eq!(p.highlights, vec!["8 GB RAM", "128 GB ROM", "5000 mAh"]);
    assert_eq!(p.name.as_deref(), Some("Test Phone"));
}

#[test]
fn scenario_coming_soon_page() {
    let body = "<html><body><h1>Upcoming</h1><div>Coming Soon</div>\
<div id=\"sellerName\"><span>SellerX</span><div>4.5</div></div>\
<div><div>\u{20b9}100</div><div>\u{20b9}150</div></div>\
<div>4.2<img src=\"STAR\"></div><div><img src=\"fa_62673a.png\"></div></body></html>";
    let p = ProductDetails::from_page(URL, body, STAR).unwrap();
    assert!(!p.in_stock);
    assert_eq!(p.rating, None);
    assert_eq!(p.current_price, None);
    assert_eq!(p.original_price, None);
    assert!(p.seller.is_none());
    assert!(!p.f_assured);
}

#[test]
fn out_of_stock_page_leaves_gated_fields_unset() {
    let body = "<html><body><h1>Gone</h1><div>This item is currently out of stock</div>\
<div id=\"sellerName\"><span>SellerX</span></div>\
<div><div>\u{20b9}100</div><div>\u{20b9}150</div></div>\
<div>4.2<img src=\"STAR\"></div><div><img src=\"fa_62673a.png\"></div>\
<div>Available offers<ul><li><span>Bank Offer</span><span>5% off</span></li></ul></div>\
<div>Highlights<ul><li>one</li></ul></div></body></html>";
    let p = ProductDetails::from_page(URL, body, STAR).unwrap();
    assert!(!p.in_stock);
    assert!(p.seller.is_none());
    assert_eq!(p.rating, None);
    assert_eq!(p.current_price, None);
    assert_eq!(p.original_price, None);
    assert!(!p.f_assured);
    assert!(p.offers.is_empty());
    assert_eq!(p.highlights, vec!["one"]);
}

#[test]
fn full_page_fields() {
    let p = ProductDetails::from_page(URL, PAGE_FULL, STAR).unwrap();
    assert!(p.in_stock);
    assert_eq!(p.name.as_deref(), Some("Full Title"));
    assert_eq!(p.thumbnails, vec!["a.jpg", "b.jpg"]);
    let seller = p.seller.as_ref().unwrap();
    assert_eq!(seller.name, "RetailNet");
    assert_eq!(seller.rating.as_deref(), Some("4.6"));
    assert_eq!(p.rating.as_deref(), Some("4.3"));
    assert!(p.f_assured);
    assert_eq!(p.current_price, Some(1299));
    assert_eq!(p.original_price, Some(1999));
    assert_eq!(p.offers.len(), 2);
    assert_eq!(p.offers[0].category.as_deref(), Some("Bank Offer"));
    assert_eq!(p.offers[0].description, "10% off");
    assert_eq!(p.offers[1].category, None);
    assert_eq!(p.offers[1].description, "Free delivery");
    assert_eq!(p.specifications.len(), 1);
    assert_eq!(p.specifications[0].category, "General");
    assert_eq!(p.specifications[0].specifications.len(), 1);
    assert_eq!(p.specifications[0].specifications[0].name, "Color");
    assert_eq!(p.specifications[0].specifications[0].value, "Black");
    assert_eq!(p.product_id.as_deref(), Some("MOBABC123"));
    assert_eq!(p.share_url, "https://dl.flipkart.com/s/abc?cmpid=product.share.pp");
}

#[test]
fn share_url_falls_back_to_requested_url() {
    let p = ProductDetails::from_page(URL, PAGE_A, STAR).unwrap();
    assert_eq!(p.share_url, URL);
    assert!(!p.share_url.is_empty());
    assert_eq!(p.product_id, None);
}

#[test]
fn share_link_is_normalised() {
    let body = "<html><body><script>window.__INITIAL_STATE__={\"productId\":\"ID9\",\"l\":\"HTTPS://DL.Flipkart.com/s/q?c=product.share.pp\"}</script></body></html>";
    let p = ProductDetails::from_page(URL, body, STAR).unwrap();
    assert_eq!(p.product_id.as_deref(), Some("ID9"));
    assert_eq!(p.share_url, "https://dl.flipkart.com/s/q?c=product.share.pp");
}

#[test]
fn script_without_state_marker_is_ignored() {
    let body = "<html><body><script>var productId = \"X\"; \"https://dl.flipkart.com/s/z?product.share.pp\"</script></body></html>";
    let p = ProductDetails::from_page(URL, body, STAR).unwrap();
    assert_eq!(p.product_id, None);
    assert_eq!(p.share_url, URL);
}

#[test]
fn off_domain_url_is_rejected() {
    let r = ProductDetails::from_page("https://www.example.com/p/x", PAGE_A, STAR);
    assert_eq!(r.err(), Some(ScrapeError::UnsupportedDomain));
    assert_eq!(
        ProductDetails::check_url("https://www.example.com/p/x"),
        Err(ScrapeError::UnsupportedDomain)
    );
}

#[test]
fn url_without_domain_is_rejected() {
    assert_eq!(ProductDetails::check_url("not a url"), Err(ScrapeError::InvalidDomain));
    assert_eq!(ProductDetails::check_url(""), Err(ScrapeError::InvalidDomain));
    assert_eq!(ProductDetails::check_url("http://127.0.0.1/p"), Err(ScrapeError::InvalidDomain));
    assert_eq!(ProductDetails::check_url(URL), Ok(()));
}

#[test]
fn not_found_body_gives_content_error() {
    let body = "<html><body>The page you are looking for has been moved or deleted</body></html>";
    let r = ProductDetails::from_page(URL, body, STAR);
    assert_eq!(r.err(), Some(ScrapeError::ProductNotFound));
    let r = ProductDetails::from_page(URL, "<p>Something's not right!</p>", STAR);
    assert_eq!(r.err(), Some(ScrapeError::ProductNotFound));
}

#[test]
fn server_error_body_gives_server_error() {
    let r = ProductDetails::from_page(URL, "<h1>500 Internal Server Error</h1>", STAR);
    assert_eq!(r.err(), Some(ScrapeError::ServerError));
}

#[test]
fn domain_is_checked_before_body() {
    let r = ProductDetails::from_page("https://shop.example/p", "has been moved or deleted", STAR);
    assert_eq!(r.err(), Some(ScrapeError::UnsupportedDomain));
}

#[test]
fn title_falls_back_to_title_element() {
    let body = "<html><head><title>Only Title</title></head><body><p>x</p></body></html>";
    let p = ProductDetails::from_page(URL, body, STAR).unwrap();
    assert_eq!(p.name.as_deref(), Some("Only Title"));
    let p = ProductDetails::from_page(URL, "<p>x</p>", STAR).unwrap();
    assert_eq!(p.name, None);
}

#[test]
fn thumbnail_list_with_text_is_skipped() {
    let body = "<html><body><ul><li>caption<img src=\"x.jpg\"></li></ul><ul><li></li></ul><ul><li><img src=\"y.jpg\"><img></li></ul></body></html>";
    let p = ProductDetails::from_page(URL, body, STAR).unwrap();
    assert_eq!(p.thumbnails, vec!["y.jpg"]);
}

#[test]
fn unreadable_second_price_defaults_to_current() {
    let body = "<html><body><div><div>\u{20b9}2,500</div><div>\u{20b9}abc</div></div></body></html>";
    let p = ProductDetails::from_page(URL, body, STAR).unwrap();
    assert_eq!(p.current_price, Some(2500));
    assert_eq!(p.original_price, Some(2500));
}

#[test]
fn compound_price_text_is_skipped() {
    let body = "<html><body><div><div><div>\u{20b9}10</div><div>\u{20b9}20</div></div><div>\u{20b9}30</div></div></body></html>";
    let p = ProductDetails::from_page(URL, body, STAR).unwrap();
    assert_eq!(p.current_price, Some(10));
    assert_eq!(p.original_price, Some(20));
}

#[test]
fn rating_needs_star_icon_and_number() {
    let body = "<html><body><div>good<img src=\"STAR\"></div><div>3.9<img src=\"OTHER\"></div><div>4.1<img src=\"STAR\"></div></body></html>";
    let p = ProductDetails::from_page(URL, body, STAR).unwrap();
    assert_eq!(p.rating.as_deref(), Some("4.1"));
}

#[test]
fn seller_name_falls_back_to_block_text() {
    let body = "<html><body><div id=\"sellerName\"><div>  Shop Two  </div></div></body></html>";
    let p = ProductDetails::from_page(URL, body, STAR).unwrap();
    let s = p.seller.unwrap();
    assert_eq!(s.name, "Shop Two");
    assert_eq!(s.rating, None);
}

#[test]
fn error_messages() {
    assert_eq!(ScrapeError::UnsupportedDomain.message(), "Only flipkart.com is supported");
    assert_eq!(ScrapeError::InvalidDomain.message(), "Domain name invalid.");
}

#[test]
fn domain_is_read_from_host_not_path() {
    assert_eq!(
        ProductDetails::check_url("https://evil.example/flipkart.com/p"),
        Err(ScrapeError::UnsupportedDomain)
    );
    assert_eq!(ProductDetails::check_url("https://dl.flipkart.com/s/x"), Ok(()));
}

#[test]
fn ascending_figures_keep_current_below_original() {
    let p = ProductDetails::from_page(URL, PAGE_A, STAR).unwrap();
    assert!(p.current_price.unwrap() <= p.original_price.unwrap());
}

#[test]
fn descending_figures_are_taken_in_page_order() {
    let body = "<html><body><div><div>\u{20b9}150</div><div>\u{20b9}100</div></div></body></html>";
    let p = ProductDetails::from_page(URL, body, STAR).unwrap();
    assert_eq!(p.current_price, Some(150));
    assert_eq!(p.original_price, Some(100));
}

#[test]
fn single_figure_leaves_original_unset() {
    let body = "<html><body><div>\u{20b9}<b>999</b></div><p>x</p></body></html>";
    let p = ProductDetails::from_page(URL, body, STAR).unwrap();
    assert_eq!(p.current_price, None);
    assert_eq!(p.original_price, None);
}

#[test]
fn no_star_signature_reads_no_rating() {
    let body = "<html><body><div>4.4<img src=\"\"></div><div>4.1<img src=\"STAR\"></div></body></html>";
    let p = ProductDetails::from_page(URL, body, "").unwrap();
    assert_eq!(p.rating, None);
    let p = ProductDetails::from_page(URL, body, STAR).unwrap();
    assert_eq!(p.rating.as_deref(), Some("4.1"));
}
