use price_alert::config::{ExtractionMode, StoreTemplate};
use price_alert::locate::{value_from_element, LocateError};
use price_alert::normalize::{PriceError, PriceNormalizer};
use price_alert::pipeline::{price_from_page, PipelineError};

fn store(selector: &str, attr: Option<&str>, from_attr: bool) -> StoreTemplate {
    StoreTemplate {
        attr: attr.map(|a| a.to_string()),
        from_attr,
        store_key: "shop".to_string(),
        selector: selector.to_string(),
    }
}

fn run(page: &str, s: &StoreTemplate) -> Result<(u64, u32), PipelineError> {
    let n = PriceNormalizer::new().unwrap();
    price_from_page(page, s, &n).map(|r| (r.price.mantissa, r.price.scale))
}

const PAGE: &str = "<html><body>\
    <div class=\"price\"><span>$3,499.97</span></div>\
    <div class=\"price\">$12.00</div>\
    <meta itemprop=\"price\" content=\"55.31\">\
    <p class=\"status\">Sold Out</p>\
    </body></html>";

#[test]
fn inner_text_of_first_match_is_read() {
    assert_eq!(run(PAGE, &store("div.price", None, false)).unwrap(), (349997, 2));
}

#[test]
fn attribute_value_is_read() {
    let s = store("meta[itemprop=price]", Some("content"), true);
    assert_eq!(run(PAGE, &s).unwrap(), (5531, 2));
}

#[test]
fn no_matching_element_is_a_no_match_error() {
    let r = run(PAGE, &store("#productPrice", None, false));
    match r {
        Err(PipelineError::Locate(LocateError::NoMatch { selector })) => {
            assert_eq!(selector, "#productPrice")
        }
        _ => panic!("expected a no-match error"),
    }
}

#[test]
fn missing_attribute_names_the_attribute() {
    let r = run(PAGE, &store("div.price", Some("data-price"), true));
    match r {
        Err(PipelineError::Locate(LocateError::MissingAttribute { attribute, selector })) => {
            assert_eq!(attribute, "data-price");
            assert_eq!(selector, "div.price");
        }
        _ => panic!("expected a missing-attribute error"),
    }
}

#[test]
fn attribute_mode_without_a_name_fails() {
    let r = run(PAGE, &store("div.price", None, true));
    assert!(matches!(r, Err(PipelineError::NoAttributeName { .. })));
}

#[test]
fn bad_selector_fails_before_the_page_is_read() {
    let r = run(PAGE, &store("div[", None, false));
    match r {
        Err(PipelineError::Selector(e)) => assert_eq!(e.details, "Error parsing selector \"div[\""),
        _ => panic!("expected a selector error"),
    }
}

#[test]
fn element_without_a_price_gives_zero() {
    assert_eq!(run(PAGE, &store("p.status", None, false)).unwrap(), (0, 0));
}

#[test]
fn overlong_price_is_a_price_error() {
    let page = "<b>12345678901234567890.50</b>";
    let r = run(page, &store("b", None, false));
    assert!(matches!(r, Err(PipelineError::Price(PriceError::OutOfRange))));
}

#[test]
fn inner_html_keeps_attribute_order() {
    let page = "<div id=\"p\"><span data-id=\"12.5\" class=\"x\">3.99</span></div>";
    for _ in 0..20 {
        assert_eq!(run(page, &store("#p", None, false)).unwrap(), (125, 1));
    }
}

#[test]
fn element_values_map_to_errors() {
    let mode = ExtractionMode::Attribute("content".to_string());
    assert!(matches!(
        value_from_element(&mode, "x", None),
        Err(LocateError::NoMatch { .. })
    ));
    assert!(matches!(
        value_from_element(&mode, "x", Some(None)),
        Err(LocateError::MissingAttribute { .. })
    ));
    assert_eq!(
        value_from_element(&ExtractionMode::InnerText, "x", Some(Some("9.99".to_string()))).unwrap(),
        "9.99"
    );
}

#[test]
fn extraction_mode_is_resolved_from_the_template() {
    assert!(matches!(store("a", None, false).extraction_mode(), Some(ExtractionMode::InnerText)));
    match store("a", Some("content"), true).extraction_mode() {
        Some(ExtractionMode::Attribute(n)) => assert_eq!(n, "content"),
        _ => panic!("expected an attribute mode"),
    }
    assert!(store("a", None, true).extraction_mode().is_none());
}

#[test]
fn reading_says_whether_the_pattern_matched() {
    let n = PriceNormalizer::new().unwrap();
    let r = price_from_page(PAGE, &store("p.status", None, false), &n).unwrap();
    assert!(!r.pattern_found);
    let r = price_from_page(PAGE, &store("div.price", None, false), &n).unwrap();
    assert!(r.pattern_found);
}

#[test]
fn normaliser_reports_the_matched_text() {
    let n = PriceNormalizer::new().unwrap();
    assert_eq!(n.find_price_text("$3,499.97 CAD").unwrap(), "3,499.97");
    assert!(n.find_price_text("Sold Out").is_none());
}
