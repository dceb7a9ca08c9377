use price_alert::normalize::{parse_price_text, price_from_match, PriceError, PriceNormalizer};
use price_alert::price::Price;

fn normalizer() -> PriceNormalizer {
    PriceNormalizer::new().expect("the price pattern compiles")
}

#[test]
fn separators_are_dropped_from_the_first_price() {
    let p = normalizer().normalize("$3,499.97 CAD").unwrap();
    assert_eq!((p.mantissa, p.scale), (349997, 2));
}

#[test]
fn text_without_a_price_gives_zero() {
    let p = normalizer().normalize("Sold Out").unwrap();
    assert_eq!(p.mantissa, 0);
}

#[test]
fn integer_prices_are_not_recognised() {
    let p = normalizer().normalize("Now 279 dollars").unwrap();
    assert_eq!(p.mantissa, 0);
}

#[test]
fn first_of_several_prices_wins() {
    let p = normalizer().normalize("was 12.50, now 9.99").unwrap();
    assert_eq!((p.mantissa, p.scale), (1250, 2));
}

#[test]
fn sign_is_not_part_of_the_price() {
    let p = normalizer().normalize("price: +1,000.50").unwrap();
    assert_eq!((p.mantissa, p.scale), (100050, 2));
}

#[test]
fn text_before_a_plus_is_not_part_of_the_price() {
    let p = normalizer().normalize("1+2.50").unwrap();
    assert_eq!((p.mantissa, p.scale), (250, 2));
}

#[test]
fn point_without_leading_digits_is_not_a_price() {
    let p = normalizer().normalize("only .99 left").unwrap();
    assert_eq!(p.mantissa, 0);
}

#[test]
fn too_many_digits_is_out_of_range() {
    let r = normalizer().normalize("12345678901234567890.5");
    assert!(matches!(r, Err(PriceError::OutOfRange)));
    let r = parse_price_text("1.1234567890123456789");
    assert!(matches!(r, Err(PriceError::OutOfRange)));
}

#[test]
fn price_text_parses_exactly() {
    let p = parse_price_text("3,499.97").unwrap();
    assert_eq!((p.mantissa, p.scale), (349997, 2));
    let p = parse_price_text(".5").unwrap();
    assert_eq!((p.mantissa, p.scale), (5, 1));
    let p = parse_price_text("0.00").unwrap();
    assert_eq!((p.mantissa, p.scale), (0, 2));
}

#[test]
fn price_text_without_point_or_fraction_is_malformed() {
    assert!(matches!(parse_price_text("279"), Err(PriceError::Malformed)));
    assert!(matches!(parse_price_text("279."), Err(PriceError::Malformed)));
    assert!(matches!(parse_price_text(""), Err(PriceError::Malformed)));
    assert!(matches!(parse_price_text("1.2.3"), Err(PriceError::Malformed)));
}

#[test]
fn no_match_gives_zero() {
    let p = price_from_match(None).unwrap();
    assert_eq!(p.mantissa, 0);
    let p = price_from_match(Some("55.31")).unwrap();
    assert_eq!((p.mantissa, p.scale), (5531, 2));
}

#[test]
fn price_comparison_is_exact() {
    let a = Price::new(349997, 2).unwrap();
    let b = Price::new(3500, 0).unwrap();
    assert!(a.is_below(&b));
    assert!(!b.is_below(&a));
    let c = Price::new(35000, 1).unwrap();
    assert!(!b.is_below(&c));
    assert!(!c.is_below(&b));
    assert!(Price::new(1, 19).is_none());
}

#[test]
fn cents_round_half_up() {
    assert_eq!(Price::new(3499969, 3).unwrap().to_cents(), 349997);
    assert_eq!(Price::new(1005, 3).unwrap().to_cents(), 101);
    assert_eq!(Price::new(1004, 3).unwrap().to_cents(), 100);
    assert_eq!(Price::new(7, 0).unwrap().to_cents(), 700);
}
