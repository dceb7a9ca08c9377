//! The price fetch pipeline, from a fetched page to a price.
use vstd::prelude::*;
use vstd::string::*;
use crate::config::{mode_of, ExtractionMode, StoreTemplate};
use crate::locate::{first_element_of, located, locate, LocateError};
use crate::normalize::{price_from_match, price_of_match, price_pattern_match, PriceError, PriceNormalizer};
use crate::price::Price;
use crate::selector::{brackets_balanced, compile_selector, selector_accepted, selector_error_message, SelectorParseError};

verus! {

/// Why no price could be had from a fetched page.
#[derive(Clone, Debug)]
pub enum PipelineError {
    /// The store's selector does not compile.
    Selector(SelectorParseError),
    /// The store template reads an attribute but names none.
    NoAttributeName { selector: String },
    /// No value could be read from the page.
    Locate(LocateError),
    /// The value read is not a price.
    Price(PriceError),
}

/// A price read from a page, and whether the price pattern matched at all;
/// when it did not, the price is the zero that stands in for it.
#[derive(Clone, Copy, Debug)]
pub struct Reading {
    pub price: Price,
    pub pattern_found: bool,
}

/// The result `r` is what the pipeline gives for `page` once `selector` has
/// compiled and `m` is resolved: the value read from the first element that
/// the selector picks, normalised, or the locate error that `located` names.
pub open spec fn page_outcome(
    page: Seq<char>,
    selector: Seq<char>,
    m: ExtractionMode,
    r: Result<Reading, PipelineError>,
) -> bool {
    let element = first_element_of(page, selector, m);
    match element {
        Some(Some(v)) => r == match price_of_match(price_pattern_match(v)) {
            Ok(p) => Ok(Reading { price: p, pattern_found: price_pattern_match(v) is Some }),
            Err(e) => Err(PipelineError::Price(e)),
        },
        _ => r matches Err(PipelineError::Locate(e)) && located(m, selector, element, Err(e)),
    }
}

/// Runs the stages after the fetch on the page text `page`: the selector is
/// compiled, the template's mode resolved, the page parsed, the value located
/// and normalised. The first stage that fails decides the error.
pub fn price_from_page(page: &str, store: &StoreTemplate, normalizer: &PriceNormalizer) -> (r:
    Result<Reading, PipelineError>)
    ensures
        (r matches Err(PipelineError::Selector(e))) <==> !(brackets_balanced(store.selector@)
            && selector_accepted(store.selector@)),
        r matches Err(PipelineError::Selector(e)) ==> e.details@ == selector_error_message(
            store.selector@,
        ),
        store.selector@.len() == 0 ==> r matches Err(PipelineError::Selector(_)),
        (r matches Err(PipelineError::NoAttributeName { selector: s })) <==> (brackets_balanced(
            store.selector@,
        ) && selector_accepted(store.selector@) && mode_of(*store) is None),
        r matches Err(PipelineError::NoAttributeName { selector: s }) ==> s@ == store.selector@,
        brackets_balanced(store.selector@) && selector_accepted(store.selector@) ==> match mode_of(
            *store,
        ) {
            Some(m) => page_outcome(page@, store.selector@, m, r),
            None => true,
        },
        r matches Ok(x) ==> x.price.wf(),
{
    let sel = match compile_selector(store.selector.as_str()) {
        Ok(s) => s,
        Err(e) => return Err(PipelineError::Selector(e)),
    };
    let mode = match store.extraction_mode() {
        Some(m) => m,
        None => return Err(PipelineError::NoAttributeName { selector: store.selector.clone() }),
    };
    let raw = match locate(page, &sel, &mode) {
        Ok(v) => v,
        Err(e) => return Err(PipelineError::Locate(e)),
    };
    let found = normalizer.find_price_text(raw.as_str());
    let pattern_found = found.is_some();
    let price = match &found {
        Some(m) => price_from_match(Some(m.as_str())),
        None => price_from_match(None),
    };
    match price {
        Ok(p) => Ok(Reading { price: p, pattern_found }),
        Err(e) => Err(PipelineError::Price(e)),
    }
}

} // verus!
