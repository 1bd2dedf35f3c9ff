//! Trusted query wrappers around the `scraper` crate.
//!
//! Each wrapper parses the given HTML (a whole document or one element's
//! outer HTML), runs one CSS-selector query, and hands back plain strings.
//! What a query finds in arbitrary HTML cannot be usefully specified, so
//! these carry no contracts; every decision over their results is made by
//! verified callers.

use vstd::prelude::*;

verus! {

/// Relies on scraper's `Html::parse_document` and `Selector::parse`: the
/// flattened text (pieces joined by `sep`) of the first element matched by
/// `selector`, or `None` when nothing matches or the selector is invalid.
#[verifier::external_body]
pub(crate) fn query_first_text(html: &str, selector: &str, sep: &str) -> (r: Option<String>) {
    let doc = scraper::Html::parse_document(html);
    let sel = match scraper::Selector::parse(selector) {
        Ok(s) => s,
        Err(_) => return None,
    };
    let el = doc.select(&sel).next()?;
    Some(el.text().collect::<Vec<_>>().join(sep))
}

/// Relies on scraper's `ElementRef::attr`: the value of `attr` on the first
/// element matched by `selector`.
#[verifier::external_body]
pub(crate) fn query_first_attr(html: &str, selector: &str, attr: &str) -> (r: Option<String>) {
    let doc = scraper::Html::parse_document(html);
    let sel = match scraper::Selector::parse(selector) {
        Ok(s) => s,
        Err(_) => return None,
    };
    let el = doc.select(&sel).next()?;
    el.attr(attr).map(|s| s.to_string())
}

/// Relies on scraper's `ElementRef::html`: the outer HTML of every element
/// matched by `selector`, in document order.
#[verifier::external_body]
pub(crate) fn query_all_html(html: &str, selector: &str) -> (r: Vec<String>) {
    let doc = scraper::Html::parse_document(html);
    let sel = match scraper::Selector::parse(selector) {
        Ok(s) => s,
        Err(_) => return Vec::new(),
    };
    doc.select(&sel).map(|el| el.html()).collect()
}

/// Relies on scraper's `ElementRef::text`: the flattened text (pieces joined
/// by `sep`) of every element matched by `selector`, in document order.
#[verifier::external_body]
pub(crate) fn query_all_texts(html: &str, selector: &str, sep: &str) -> (r: Vec<String>) {
    let doc = scraper::Html::parse_document(html);
    let sel = match scraper::Selector::parse(selector) {
        Ok(s) => s,
        Err(_) => return Vec::new(),
    };
    doc.select(&sel).map(|el| el.text().collect::<Vec<_>>().join(sep)).collect()
}

/// Relies on scraper's `ElementRef::attr`: the value of `attr` on every
/// element matched by `selector`, in document order; `None` for an element
/// without the attribute.
#[verifier::external_body]
pub(crate) fn query_all_attrs(html: &str, selector: &str, attr: &str) -> (r: Vec<Option<String>>) {
    let doc = scraper::Html::parse_document(html);
    let sel = match scraper::Selector::parse(selector) {
        Ok(s) => s,
        Err(_) => return Vec::new(),
    };
    doc.select(&sel).map(|el| el.attr(attr).map(|s| s.to_string())).collect()
}

/// Relies on scraper's nested selection: for the first table matched by
/// `selector`, the flattened text of every cell of every row, grouped by
/// row, in document order. `None` when no table matches.
#[verifier::external_body]
pub(crate) fn query_table_cells(html: &str, selector: &str) -> (r: Option<Vec<Vec<String>>>) {
    let doc = scraper::Html::parse_document(html);
    let table_sel = match scraper::Selector::parse(selector) {
        Ok(s) => s,
        Err(_) => return None,
    };
    let row_sel = scraper::Selector::parse("tr").ok()?;
    let cell_sel = scraper::Selector::parse("td, th").ok()?;
    let table = doc.select(&table_sel).next()?;
    Some(
        table.select(&row_sel).map(
            |row| row.select(&cell_sel).map(|c| c.text().collect::<Vec<_>>().join("")).collect(),
        ).collect(),
    )
}

/// Relies on scraper's sibling traversal: for every element matched by
/// `selector`, its flattened text together with every following sibling
/// element's tag name and flattened text, in document order. Which sibling
/// to use is decided by verified callers.
#[verifier::external_body]
pub(crate) fn query_heading_siblings(html: &str, selector: &str) -> (r: Vec<
    (String, Vec<(String, String)>),
>) {
    let doc = scraper::Html::parse_document(html);
    let sel = match scraper::Selector::parse(selector) {
        Ok(s) => s,
        Err(_) => return Vec::new(),
    };
    doc.select(&sel).map(
        |h| {
            let heading: String = h.text().collect::<Vec<_>>().join("");
            let siblings: Vec<(String, String)> = h.next_siblings().filter_map(
                scraper::ElementRef::wrap,
            ).map(|e| (e.value().name().to_string(), e.text().collect::<Vec<_>>().join(" "))).collect();
            (heading, siblings)
        },
    ).collect()
}

} // verus!
