use flipkart_scraper::build_headers;
use flipkart_scraper::number::{is_float_literal_exec, parse_i32_exec};
use flipkart_scraper::text::trim_chars;
use flipkart_scraper::Document;

fn chars(s: &str) -> Vec<char> {
    s.chars().collect()
}

#[test]
fn integers_read_like_std() {
    assert_eq!(parse_i32_exec(&chars("1299")), Some(1299));
    assert_eq!(parse_i32_exec(&chars("+7")), Some(7));
    assert_eq!(parse_i32_exec(&chars("-2147483648")), Some(i32::MIN));
    assert_eq!(parse_i32_exec(&chars("2147483647")), Some(i32::MAX));
    assert_eq!(parse_i32_exec(&chars("2147483648")), None);
    assert_eq!(parse_i32_exec(&chars("0000000000000012")), Some(12));
    assert_eq!(parse_i32_exec(&chars("")), None);
    assert_eq!(parse_i32_exec(&chars("-")), None);
    assert_eq!(parse_i32_exec(&chars("12a")), None);
    assert_eq!(parse_i32_exec(&chars(" 1")), None);
}

#[test]
fn float_literals_match_std() {
    for s in ["4.3", "4", ".5", "5.", "1e3", "-2.5E-2", "inf", "-Infinity", "NaN", "+0"] {
        assert!(is_float_literal_exec(&chars(s)), "{}", s);
        assert!(s.parse::<f32>().is_ok());
    }
    for s in ["", ".", "e5", "4.3.1", "1e", "abc", " 4", "4,5", "infinit"] {
        assert!(!is_float_literal_exec(&chars(s)), "{}", s);
        assert!(s.parse::<f32>().is_err());
    }
}

#[test]
fn trim_removes_unicode_space() {
    assert_eq!(trim_chars(&chars("\u{a0} a b \n\u{3000}")), chars("a b"));
    assert_eq!(trim_chars(&chars("   ")), chars(""));
}

#[test]
fn parsed_document_keeps_order_and_depth() {
    let doc = Document::parse("<html><body><div id=\"x\">hi<span>there</span></div></body></html>");
    assert!(doc.len() >= 6);
    let first_div = (0..doc.len()).find(|&i| doc.is_tag(i, &chars("div"))).unwrap();
    assert_eq!(doc.all_text(first_div), chars("hithere"));
    assert_eq!(doc.first_text(first_div), Some(chars("hi")));
    assert_eq!(doc.second_text(first_div), Some(chars("there")));
    assert_eq!(doc.attr(first_div, &chars("id")), Some(&chars("x")));
    assert_eq!(doc.nodes[first_div + 1].depth, doc.nodes[first_div].depth + 1);
}

#[test]
fn headers_are_fixed() {
    let h = build_headers();
    assert_eq!(h.len(), 3);
    assert_eq!(h[0].0, "user-agent");
    assert!(h[0].1.starts_with("Mozilla/5.0"));
    assert_eq!(h[1], ("accept-language".to_string(), "en-US,en;q=0.5".to_string()));
    assert!(h[2].1.starts_with("text/html"));
}
