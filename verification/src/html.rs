//! Trusted boundary around the `scraper` crate.
//!
//! Everything the library learns from a parsed HTML document flows
//! through the wrappers here: a document is parsed once, elements are
//! selected with CSS selectors, and each selected element is reduced to
//! the plain text and attribute values the verified logic works on.

use vstd::prelude::*;

verus! {

#[verifier::external_type_specification]
#[verifier::external_body]
pub struct ExHtml(scraper::Html);

#[verifier::external_type_specification]
#[verifier::external_body]
pub struct ExSelector(scraper::Selector);

#[verifier::external_type_specification]
#[verifier::external_body]
pub struct ExElementRef<'a>(scraper::ElementRef<'a>);

/// Relies on scraper::Html::parse_document, which parses any input
/// without failing (malformed markup only degrades the tree).
#[verifier::external_body]
pub(crate) fn parse_document(markup: &str) -> scraper::Html {
    scraper::Html::parse_document(markup)
}

/// Relies on scraper::Selector::parse: a syntactically invalid CSS
/// selector yields an error, mapped to `None` here.
#[verifier::external_body]
pub(crate) fn parse_selector(selector: &str) -> Option<scraper::Selector> {
    match scraper::Selector::parse(selector) {
        Ok(s) => Some(s),
        Err(_) => None,
    }
}

/// Relies on scraper::Html::select: yields the elements matching the
/// selector in document order.
#[verifier::external_body]
pub(crate) fn select_in_document<'a>(
    document: &'a scraper::Html,
    selector: &scraper::Selector,
) -> Vec<scraper::ElementRef<'a>> {
    document.select(selector).collect()
}

/// Relies on scraper::ElementRef::select: yields the descendant
/// elements matching the selector in document order.
#[verifier::external_body]
pub(crate) fn select_in_element<'a>(
    element: &scraper::ElementRef<'a>,
    selector: &scraper::Selector,
) -> Vec<scraper::ElementRef<'a>> {
    element.select(selector).collect()
}

/// Relies on scraper::ElementRef::text: the concatenated text of all
/// descendant text nodes, in document order.
#[verifier::external_body]
pub(crate) fn element_text(element: &scraper::ElementRef<'_>) -> String {
    element.text().collect()
}

/// Relies on scraper::ElementRef::attr: the value of the named
/// attribute, if the element has it.
#[verifier::external_body]
pub(crate) fn element_attr(element: &scraper::ElementRef<'_>, name: &str) -> Option<String> {
    match element.attr(name) {
        Some(v) => Some(v.to_string()),
        None => None,
    }
}

/// An anchor element reduced to the plain values the logic reads: its
/// visible text and its href attribute (empty when absent).
pub struct Anchor {
    pub text: String,
    pub href: String,
}

/// Reduces every element matching `selector` to an [`Anchor`], in
/// document order.
pub fn anchors_in(doc: &scraper::Html, selector: &scraper::Selector) -> Vec<Anchor> {
    let elements = select_in_document(doc, selector);
    let mut r: Vec<Anchor> = Vec::new();
    let mut i: usize = 0;
    while i < elements.len()
        invariant
            i <= elements@.len(),
        decreases elements@.len() - i,
    {
        let text = element_text(&elements[i]);
        let href = match element_attr(&elements[i], "href") {
            Some(h) => h,
            None => String::new(),
        };
        r.push(Anchor { text, href });
        i += 1;
    }
    r
}

/// The text of the first element matching `selector` inside `element`,
/// or the empty string when nothing matches.
pub fn first_text_in(element: &scraper::ElementRef<'_>, selector: &scraper::Selector) -> String {
    let matches = select_in_element(element, selector);
    if matches.len() > 0 {
        element_text(&matches[0])
    } else {
        String::new()
    }
}

/// The text of the first element matching `selector` in the whole
/// document, or the empty string when nothing matches.
pub fn first_text_in_document(doc: &scraper::Html, selector: &scraper::Selector) -> String {
    let matches = select_in_document(doc, selector);
    if matches.len() > 0 {
        element_text(&matches[0])
    } else {
        String::new()
    }
}

} // verus!
