//! Narrow interface to the HTML parser: field extraction from markup, as
//! plain strings in and plain strings out.
//!
//! Parsing HTML is delegated to the scraper crate; what each call returns
//! is a pure function of its arguments, named by the uninterpreted
//! functions below, and the library's own logic is verified against those
//! names.

use vstd::prelude::*;

verus! {

/// The failures of HTML field extraction: a required element, attribute
/// or header is missing or malformed, or a numeric field does not parse.
#[derive(Clone, Copy, Debug, PartialEq, Eq, Structural)]
pub enum HtmlError {
    MissingAsin,
    MissingTitle,
    MissingAuthor,
    MissingImage,
    MissingDate,
    MissingHighlightHeader,
    MissingNoteHeader,
    MissingNote,
    MissingLocation,
    MalformedHeader,
    BadNumber,
}

/// The serialized HTML of each element of `html` matched by `selector`,
/// in document order; an invalid selector matches nothing.
pub uninterp spec fn selections_of(html: Seq<char>, selector: Seq<char>) -> Seq<Seq<char>>;

/// The inner HTML of the first element of `html` matched by `selector`,
/// if the selector is valid and some element matches.
pub uninterp spec fn first_inner_html_of(html: Seq<char>, selector: Seq<char>) -> Option<
    Seq<char>,
>;

/// The value of attribute `attr` on the first element of `html` matched
/// by `selector`, if the selector is valid, some element matches, and the
/// element carries the attribute.
pub uninterp spec fn first_attr_of(html: Seq<char>, selector: Seq<char>, attr: Seq<char>) -> Option<
    Seq<char>,
>;

/// Relies on scraper's `Html::parse_fragment`, `Selector::parse`,
/// `Html::select` and `ElementRef::html`: the serialized HTML of every
/// match of the selector, in document order.  The result depends on the
/// two arguments alone.
#[verifier::external_body]
pub(crate) fn select_outer_htmls(html: &str, selector: &str) -> (r: Vec<String>)
    ensures
        r.deep_view() == selections_of(html@, selector@),
{
    let fragment = scraper::Html::parse_fragment(html);
    match scraper::Selector::parse(selector) {
        Ok(sel) => fragment.select(&sel).map(|e| e.html()).collect(),
        Err(_) => Vec::new(),
    }
}

/// Relies on scraper's `Html::parse_fragment`, `Selector::parse`,
/// `Html::select` and `ElementRef::inner_html`: the inner HTML of the
/// first match of the selector, if any.  The result depends on the two
/// arguments alone.
#[verifier::external_body]
pub(crate) fn select_first_inner_html(html: &str, selector: &str) -> (r: Option<String>)
    ensures
        match r {
            Some(s) => first_inner_html_of(html@, selector@) == Some(s@),
            None => first_inner_html_of(html@, selector@) is None,
        },
{
    let fragment = scraper::Html::parse_fragment(html);
    let sel = scraper::Selector::parse(selector).ok()?;
    let element = fragment.select(&sel).next()?;
    Some(element.inner_html())
}

/// Relies on scraper's `Html::parse_fragment`, `Selector::parse`,
/// `Html::select` and `ElementRef::attr`: the value of the attribute on
/// the first match of the selector, if present.  The result depends on
/// the three arguments alone.
#[verifier::external_body]
pub(crate) fn select_first_attr(html: &str, selector: &str, attr: &str) -> (r: Option<String>)
    ensures
        match r {
            Some(s) => first_attr_of(html@, selector@, attr@) == Some(s@),
            None => first_attr_of(html@, selector@, attr@) is None,
        },
{
    let fragment = scraper::Html::parse_fragment(html);
    let sel = scraper::Selector::parse(selector).ok()?;
    let element = fragment.select(&sel).next()?;
    Some(element.attr(attr)?.to_string())
}

} // verus!
