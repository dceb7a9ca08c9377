//! The decisions of a batch run: which template a product uses, whether a
//! fetched price calls for an alert, and the alert's text.
use vstd::prelude::*;
use vstd::string::*;
use crate::config::{ProductDetail, StoreTemplate};
use crate::pipeline::PipelineError;
use crate::price::Price;

verus! {

/// The first template whose key is `key`, by position.
pub open spec fn first_store(stores: Seq<StoreTemplate>, key: Seq<char>, r: Option<usize>) -> bool {
    match r {
        Some(i) => i < stores.len() && stores[i as int].store_key@ == key && forall|j: int|
            0 <= j < i ==> (#[trigger] stores[j]).store_key@ != key,
        None => forall|j: int| 0 <= j < stores.len() ==> (#[trigger] stores[j]).store_key@ != key,
    }
}

/// The position of the first template keyed `key`; a product whose key has
/// no template is skipped by the caller.
pub fn find_store(stores: &Vec<StoreTemplate>, key: &String) -> (r: Option<usize>)
    ensures
        first_store(stores@, key@, r),
{
    let mut i: usize = 0;
    while i < stores.len()
        invariant
            i <= stores.len(),
            forall|j: int| 0 <= j < i ==> (#[trigger] stores@[j]).store_key@ != key@,
        decreases stores.len() - i,
    {
        if stores[i].store_key == *key {
            return Some(i);
        }
        i = i + 1;
    }
    None
}

/// What a batch run does for one product once its fetch has ended.
#[derive(Clone, Copy, Debug, PartialEq, Eq, Structural)]
pub enum Outcome {
    /// The fetch failed: the product is skipped and the run goes on.
    Skipped,
    /// The price is not below the target: nothing to report.
    Unchanged,
    /// The price is below the target: one alert is due.
    Alert,
}

/// The outcome for a product with target `target` and fetch result `fetched`.
pub open spec fn outcome_of(target: Price, fetched: Result<Price, PipelineError>) -> Outcome {
    match fetched {
        Err(_) => Outcome::Skipped,
        Ok(p) => if p.less_than(target) {
            Outcome::Alert
        } else {
            Outcome::Unchanged
        },
    }
}

/// Decides what to do for `product` once its fetch has ended: skip it on a
/// failure, alert when the price is strictly below the target.
pub fn evaluate(product: &ProductDetail, fetched: &Result<Price, PipelineError>) -> (r: Outcome)
    requires
        product.price.wf(),
        fetched matches Ok(p) ==> p.wf(),
    ensures
        r == outcome_of(product.price, *fetched),
{
    match fetched {
        Err(_) => Outcome::Skipped,
        Ok(p) => if p.is_below(&product.price) {
            Outcome::Alert
        } else {
            Outcome::Unchanged
        },
    }
}

/// Decides every product of a run, each from its own fetch result alone, so
/// that one failure never keeps another product from being evaluated.
pub fn evaluate_all(products: &Vec<ProductDetail>, fetched: &Vec<Result<Price, PipelineError>>) -> (r:
    Vec<Outcome>)
    requires
        products.len() == fetched.len(),
        forall|i: int| 0 <= i < products.len() ==> (#[trigger] products[i]).price.wf(),
        forall|i: int| 0 <= i < fetched.len() ==> (#[trigger] fetched[i] matches Ok(p) ==> p.wf()),
    ensures
        r.len() == products.len(),
        forall|i: int| 0 <= i < r.len() ==> #[trigger] r[i] == outcome_of(products[i].price, fetched[i]),
{
    let mut r: Vec<Outcome> = Vec::new();
    let mut i: usize = 0;
    while i < products.len()
        invariant
            i <= products.len() == fetched.len(),
            r.len() == i,
            forall|k: int| 0 <= k < products.len() ==> (#[trigger] products[k]).price.wf(),
            forall|k: int| 0 <= k < fetched.len() ==> (#[trigger] fetched[k] matches Ok(p) ==> p.wf()),
            forall|k: int| 0 <= k < i ==> #[trigger] r[k] == outcome_of(products[k].price, fetched[k]),
        decreases products.len() - i,
    {
        let o = evaluate(&products[i], &fetched[i]);
        r.push(o);
        i = i + 1;
    }
    r
}

/// The character of the decimal digit `d`.
pub open spec fn digit_char(d: nat) -> char {
    ((d + 48) as u32) as char
}

/// The decimal digits of `n`, without sign or leading zeros.
pub open spec fn decimal_text(n: nat) -> Seq<char>
    decreases n,
{
    if n < 10 {
        seq![digit_char(n)]
    } else {
        decimal_text(n / 10).push(digit_char(n % 10))
    }
}

/// An amount of hundredths written with exactly two decimal places.
pub open spec fn two_decimals(cents: nat) -> Seq<char> {
    decimal_text(cents / 100) + "."@ + decimal_text((cents % 100) / 10) + decimal_text(cents % 10)
}

/// Relies on ToString for u128: the decimal digits, without sign or leading zeros.
#[verifier::external_body]
fn integer_text(n: u128) -> (r: String)
    ensures
        r@ == decimal_text(n as nat),
{
    n.to_string()
}

/// The decimal digit `d` as text.
fn digit_text(d: u128) -> (r: &'static str)
    requires
        d < 10,
    ensures
        r@ == decimal_text(d as nat),
{
    proof {
        reveal_strlit("0");
        reveal_strlit("1");
        reveal_strlit("2");
        reveal_strlit("3");
        reveal_strlit("4");
        reveal_strlit("5");
        reveal_strlit("6");
        reveal_strlit("7");
        reveal_strlit("8");
        reveal_strlit("9");
    }
    assert(decimal_text(d as nat) == seq![digit_char(d as nat)]);
    if d == 0 {
        "0"
    } else if d == 1 {
        "1"
    } else if d == 2 {
        "2"
    } else if d == 3 {
        "3"
    } else if d == 4 {
        "4"
    } else if d == 5 {
        "5"
    } else if d == 6 {
        "6"
    } else if d == 7 {
        "7"
    } else if d == 8 {
        "8"
    } else {
        "9"
    }
}

/// `p` rounded to hundredths and written with two decimal places.
pub fn price_text(p: &Price) -> (r: String)
    requires
        p.wf(),
    ensures
        r@ == two_decimals(p.cents()),
{
    let c = p.to_cents();
    let mut s = integer_text(c / 100);
    s.append(".");
    s.append(digit_text((c % 100) / 10));
    s.append(digit_text(c % 10));
    s
}

/// The text of the alert for `product`, whose price is now `current`.
pub open spec fn alert_text(product: ProductDetail, current: Price) -> Seq<char> {
    product.product_name@ + " has a lower price. Set price "@ + two_decimals(product.price.cents())
        + ", New "@ + two_decimals(current.cents())
}

/// The body of the alert for `product`, whose price is now `current`: its
/// name, the target price and the new price, each with two decimal places.
pub fn alert_body(product: &ProductDetail, current: &Price) -> (r: String)
    requires
        product.price.wf(),
        current.wf(),
    ensures
        r@ == alert_text(*product, *current),
{
    let mut s = product.product_name.clone();
    s.append(" has a lower price. Set price ");
    let target = price_text(&product.price);
    s.append(target.as_str());
    s.append(", New ");
    let now = price_text(current);
    s.append(now.as_str());
    s
}

} // verus!
