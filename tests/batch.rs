use price_alert::batch::{alert_body, evaluate, evaluate_all, find_store, price_text, Outcome};
use price_alert::config::{ProductDetail, StoreTemplate};
use price_alert::pipeline::PipelineError;
use price_alert::price::Price;

fn product(name: &str, mantissa: u64, scale: u32, key: &str) -> ProductDetail {
    ProductDetail {
        price: Price::new(mantissa, scale).unwrap(),
        product_name: name.to_string(),
        product_url: "https://example.com/item".to_string(),
        store_key: key.to_string(),
    }
}

fn template(key: &str, selector: &str) -> StoreTemplate {
    StoreTemplate {
        attr: None,
        from_attr: false,
        store_key: key.to_string(),
        selector: selector.to_string(),
    }
}

fn failed() -> Result<Price, PipelineError> {
    Err(PipelineError::NoAttributeName { selector: "x".to_string() })
}

#[test]
fn price_above_target_raises_no_alert() {
    let p = product("Lamp", 3200, 2, "shop");
    let fetched = Ok(Price::new(5531, 2).unwrap());
    assert_eq!(evaluate(&p, &fetched), Outcome::Unchanged);
}

#[test]
fn equal_price_raises_no_alert() {
    let p = product("Lamp", 3200, 2, "shop");
    let fetched = Ok(Price::new(32, 0).unwrap());
    assert_eq!(evaluate(&p, &fetched), Outcome::Unchanged);
}

#[test]
fn price_below_target_raises_one_alert() {
    let p = product("Laptop", 350000, 2, "shop");
    let now = Price::new(349997, 2).unwrap();
    assert_eq!(evaluate(&p, &Ok(now)), Outcome::Alert);
    let body = alert_body(&p, &now);
    assert!(body.contains("3500.00"));
    assert!(body.contains("3499.97"));
    assert_eq!(body, "Laptop has a lower price. Set price 3500.00, New 3499.97");
}

#[test]
fn product_without_template_is_skipped() {
    let stores = vec![template("a", "#p"), template("b", "#q")];
    assert_eq!(find_store(&stores, &"c".to_string()), None);
}

#[test]
fn first_template_with_the_key_wins() {
    let stores = vec![template("a", "#p"), template("b", "#q"), template("b", "#r")];
    assert_eq!(find_store(&stores, &"b".to_string()), Some(1));
    assert_eq!(find_store(&Vec::new(), &"b".to_string()), None);
}

#[test]
fn failed_fetch_does_not_stop_the_next_product() {
    let products = vec![product("Kettle", 1000, 2, "a"), product("Toaster", 2000, 2, "a")];
    let fetched = vec![failed(), Ok(Price::new(1599, 2).unwrap())];
    assert_eq!(evaluate_all(&products, &fetched), vec![Outcome::Skipped, Outcome::Alert]);
}

#[test]
fn prices_are_written_with_two_decimals() {
    assert_eq!(price_text(&Price::new(5, 2).unwrap()), "0.05");
    assert_eq!(price_text(&Price::new(279, 0).unwrap()), "279.00");
    assert_eq!(price_text(&Price::new(1234567, 3).unwrap()), "1234.57");
}
