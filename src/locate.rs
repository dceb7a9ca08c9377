//! Value location: the raw text of the first element a selector matches.
use vstd::prelude::*;
use vstd::string::*;
use crate::config::ExtractionMode;
use crate::selector::{first_attribute_of, first_inner_html_of, CompiledSelector};

verus! {

/// Why no value could be read from a page.
#[derive(Clone, Debug)]
pub enum LocateError {
    /// No element matches the selector.
    NoMatch { selector: String },
    /// The element the selector picks lacks the attribute.
    MissingAttribute { attribute: String, selector: String },
}

/// What reading the first element that `selector` picks in `page` gives,
/// in mode `mode`: `None` when no element matches, else what was read
/// (`None` when the attribute asked for is absent).
pub open spec fn first_element_of(page: Seq<char>, selector: Seq<char>, mode: ExtractionMode) -> Option<
    Option<Seq<char>>,
> {
    match mode {
        ExtractionMode::InnerText => match first_inner_html_of(page, selector) {
            Some(v) => Some(Some(v)),
            None => None,
        },
        ExtractionMode::Attribute(a) => first_attribute_of(page, selector, a@),
    }
}

/// What the locator gives once the first matching element has been looked
/// at: `None` when no element matched, else what was read from it (`None`
/// when the attribute asked for is absent).
pub open spec fn located(
    mode: ExtractionMode,
    selector: Seq<char>,
    element: Option<Option<Seq<char>>>,
    r: Result<String, LocateError>,
) -> bool {
    match element {
        None => r matches Err(LocateError::NoMatch { selector: s }) && s@ == selector,
        Some(None) => match mode {
            ExtractionMode::Attribute(a) => r matches Err(
                LocateError::MissingAttribute { attribute: n, selector: s },
            ) && n@ == a@ && s@ == selector,
            ExtractionMode::InnerText => r is Err,
        },
        Some(Some(v)) => r matches Ok(x) && x@ == v,
    }
}

/// What was read from the first matching element, as character sequences.
pub open spec fn element_view(element: Option<Option<String>>) -> Option<Option<Seq<char>>> {
    match element {
        None => None,
        Some(None) => Some(None),
        Some(Some(v)) => Some(Some(v@)),
    }
}

/// Turns what was read from the first matching element into the raw value,
/// or into the error that says why there is none.
pub fn value_from_element(
    mode: &ExtractionMode,
    selector: &str,
    element: Option<Option<String>>,
) -> (r: Result<String, LocateError>)
    ensures
        located(*mode, selector@, element_view(element), r),
{
    match element {
        None => Err(LocateError::NoMatch { selector: String::from_str(selector) }),
        Some(None) => match mode {
            ExtractionMode::Attribute(a) => Err(
                LocateError::MissingAttribute {
                    attribute: a.clone(),
                    selector: String::from_str(selector),
                },
            ),
            // An element always has inner HTML; an absent one is no match.
            ExtractionMode::InnerText => Err(
                LocateError::NoMatch { selector: String::from_str(selector) },
            ),
        },
        Some(Some(v)) => Ok(v),
    }
}

/// Reads the raw value of the first element of the page `page` that `sel`
/// picks, in the order scraper walks the parsed tree; later matches are
/// ignored.
pub fn locate(page: &str, sel: &CompiledSelector, mode: &ExtractionMode) -> (r: Result<
    String,
    LocateError,
>)
    ensures
        located(*mode, sel.source(), first_element_of(page@, sel.source(), *mode), r),
{
    let element = match mode {
        ExtractionMode::InnerText => match sel.first_inner_html(page) {
            Some(h) => Some(Some(h)),
            None => None,
        },
        ExtractionMode::Attribute(a) => sel.first_attribute(page, a.as_str()),
    };
    value_from_element(mode, sel.text(), element)
}

} // verus!
