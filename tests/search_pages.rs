use flipkart_scraper::{ClassSelector, ProductSearch, ScrapeError};

fn card(id: &str, href: &str, name_html: &str, prices: &str) -> String {
    format!(
        "<div data-id=\"{}\"><a href=\"{}\"><img src=\"{}.jpg\"><div class=\"nm b\">{}</div></a><div>{}</div></div>",
        id, href, id, name_html, prices
    )
}

fn results_page() -> String {
    let mut body = String::from("<!DOCTYPE html><html><body><div>");
    body += &card("c1", "/p/one", "Phone One", "<div>\u{20b9}1,000</div><div>\u{20b9}2,000</div>");
    body += &card("c2", "https://www.flipkart.com/p/two", "Phone Two", "<div>\u{20b9}500</div>");
    body += &card("c3", "/p/three", "<span>Sponsored</span>Phone Three", "");
    body += &card("c4", "/p/four", "Phone Four", "<div>\u{20b9}10</div><div>\u{20b9}x</div><div>\u{20b9}99</div>");
    body += &card("c5", "/p/five", "Phone Five", "<div>\u{20b9}7</div>");
    body += "</div></body></html>";
    body
}

#[test]
fn scenario_five_cards_with_sponsored() {
    let s = ProductSearch::search_doc("phone".to_string(), results_page()).unwrap();
    assert_eq!(s.results.len(), 5);
    assert_eq!(s.len(), 5);
    assert_eq!(s.results[2].product_name, "Phone Three");
    assert_ne!(s.results[2].product_name, "Sponsored");
    assert_eq!(s.results[0].product_name, "Phone One");
    assert_eq!(s.results[0].product_link, "https://flipkart.com/p/one");
    assert_eq!(s.results[0].thumbnail, "c1.jpg");
    assert_eq!(s.results[0].current_price, Some(1000));
    assert_eq!(s.results[0].original_price, Some(2000));
    assert_eq!(s.results[1].product_link, "https://www.flipkart.com/p/two");
    assert_eq!(s.results[1].current_price, Some(500));
    // The card's price wrapper reads as one figure too: it gives the first, its child the second.
    assert_eq!(s.results[1].original_price, Some(500));
    assert_eq!(s.results[2].current_price, None);
    assert_eq!(s.results[3].current_price, Some(10));
    // The second figure does not read as a number, so the original price is the current one.
    assert_eq!(s.results[3].original_price, Some(10));
}

#[test]
fn search_url_carries_query() {
    let s = ProductSearch::search_doc("samsung washing machine".to_string(), String::new()).unwrap();
    assert_eq!(s.query, "samsung washing machine");
    assert_eq!(
        s.query_url,
        "https://www.flipkart.com/search?marketplace=FLIPKART&q=samsung+washing+machine"
    );
    assert!(s.results.is_empty());
    assert_eq!(
        ProductSearch::search_url("a&b"),
        Ok("https://www.flipkart.com/search?marketplace=FLIPKART&q=a%26b".to_string())
    );
    assert_ne!(ProductSearch::search_url("x"), Err(ScrapeError::InvalidQuery));
}

#[test]
fn cards_without_link_or_image_are_dropped() {
    let body = "<html><body>\
<div data-id=\"a\"><span>no link</span></div>\
<div data-id=\"b\"><a><img src=\"b.jpg\"><div class=\"n\">No Href</div></a></div>\
<div data-id=\"c\"><a href=\"/c\"><div class=\"n\">No Image</div></a></div>\
<div data-id=\"d\"><a href=\"/d\"><img src=\"d.jpg\">text tail</a></div>\
<div><a href=\"/e\"><img src=\"e.jpg\"><div class=\"n\">No Id</div></a></div>\
</body></html>";
    let s = ProductSearch::search_doc("q".to_string(), body.to_string()).unwrap();
    assert_eq!(s.results.len(), 0);
}

#[test]
fn name_falls_back_to_second_link_title() {
    let body = "<html><body>\
<div data-id=\"a\"><a href=\"/a\"><img src=\"a.jpg\"><div class=\"n\"></div></a><a href=\"/a\" title=\"Titled Name\">Link Text</a></div>\
<div data-id=\"b\"><a href=\"/b\"><img src=\"b.jpg\"><div class=\"n\"></div></a><a href=\"/b\">Second Text</a></div>\
<div data-id=\"c\"><a href=\"/c\">First Text<img src=\"c.jpg\"><div></div></a></div>\
</body></html>";
    let s = ProductSearch::search_doc("q".to_string(), body.to_string()).unwrap();
    assert_eq!(s.results.len(), 3);
    assert_eq!(s.results[0].product_name, "Titled Name");
    assert_eq!(s.results[1].product_name, "Second Text");
    assert_eq!(s.results[2].product_name, "First Text");
}

#[test]
fn class_selector_from_classes() {
    let classes: Vec<Vec<char>> = vec!["nm".chars().collect(), "b".chars().collect()];
    let sel = ClassSelector::from_classes(&classes).unwrap();
    assert_eq!(sel.classes, classes);
    let empty = ClassSelector::from_classes(&Vec::new()).unwrap();
    assert!(empty.classes.is_empty());
    let bad: Vec<Vec<char>> = vec!["1abc".chars().collect()];
    assert!(ClassSelector::from_classes(&bad).is_none());
}

#[test]
fn class_names_with_css_syntax_give_no_selector() {
    for bad in ["a.b", "x>y", "a,b", "-1x", "#id"] {
        let classes: Vec<Vec<char>> = vec![bad.chars().collect()];
        assert!(ClassSelector::from_classes(&classes).is_none(), "{}", bad);
    }
    for good in ["_x", "-x", "--x", "a-1_b", "\u{e9}t\u{e9}"] {
        let classes: Vec<Vec<char>> = vec![good.chars().collect()];
        assert!(ClassSelector::from_classes(&classes).is_some(), "{}", good);
    }
}

#[test]
fn search_doc_always_succeeds() {
    assert!(ProductSearch::search_doc(String::new(), String::from("<p>")).is_ok());
    assert_eq!(ScrapeError::InvalidQuery.message(), "Search query could not be put in a URL.");
}

#[test]
fn class_match_is_case_sensitive_without_doctype() {
    let body = "<html><body>\
<div data-id=\"a\"><a href=\"/a\" ><img src=\"a.jpg\"><div class=\"Nm\">Upper</div></a><a href=\"/a\" title=\"From Title\"></a></div>\
</body></html>";
    let s = ProductSearch::search_doc("q".to_string(), body.to_string()).unwrap();
    assert_eq!(s.results[0].product_name, "Upper");
}
