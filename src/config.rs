//! What the configuration describes: tracked products and store templates.
use vstd::prelude::*;
use crate::price::Price;

verus! {

/// One tracked product: alert when its price falls below `price`.
#[derive(Clone, Debug)]
pub struct ProductDetail {
    pub price: Price,
    pub product_name: String,
    pub product_url: String,
    pub store_key: String,
}

/// Where a store's pages show the price: the element `selector` picks, and
/// either its inner HTML or, when `from_attr` is set, its attribute `attr`.
#[derive(Clone, Debug)]
pub struct StoreTemplate {
    pub attr: Option<String>,
    pub from_attr: bool,
    pub store_key: String,
    pub selector: String,
}

/// What is read from the element a store's selector picks.
#[derive(Clone, Debug)]
pub enum ExtractionMode {
    InnerText,
    Attribute(String),
}

/// The extraction mode a template describes; `None` when it asks for an
/// attribute without naming one.
pub open spec fn mode_of(t: StoreTemplate) -> Option<ExtractionMode> {
    if !t.from_attr {
        Some(ExtractionMode::InnerText)
    } else {
        match t.attr {
            Some(a) => Some(ExtractionMode::Attribute(a)),
            None => None,
        }
    }
}

impl StoreTemplate {
    /// The extraction mode of this template, resolved once; `None` when it
    /// asks for an attribute without naming one.
    pub fn extraction_mode(&self) -> (r: Option<ExtractionMode>)
        ensures
            r == mode_of(*self),
    {
        if !self.from_attr {
            Some(ExtractionMode::InnerText)
        } else {
            match &self.attr {
                Some(a) => Some(ExtractionMode::Attribute(a.clone())),
                None => None,
            }
        }
    }
}

} // verus!
