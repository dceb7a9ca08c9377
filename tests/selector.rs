use price_alert::selector::{compile_selector, SelectorParseError};

#[test]
fn empty_selector_is_refused() {
    let e = compile_selector("").err().expect("an empty selector fails");
    assert_eq!(e.details, "Error parsing selector \"\"");
}

#[test]
fn unbalanced_brackets_are_refused() {
    assert!(compile_selector("div[data-price").is_err());
    assert!(compile_selector("[").is_err());
    assert!(compile_selector("span:not(.old").is_err());
    let e = compile_selector("div]").err().expect("a stray bracket fails");
    assert_eq!(e.description(), "Error parsing selector \"div]\"");
}

#[test]
fn valid_selectors_compile() {
    assert!(compile_selector("#productPrice").is_ok());
    assert!(compile_selector("div.price > span[itemprop=price]").is_ok());
    assert!(compile_selector("a[title=\"x]\"]").is_ok());
    let c = compile_selector("#a\\[b").unwrap();
    assert_eq!(c.text(), "#a\\[b");
}

#[test]
fn parse_error_keeps_its_message() {
    let e = SelectorParseError::new("bad selector");
    assert_eq!(e.description(), "bad selector");
}
