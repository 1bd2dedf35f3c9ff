//! Field-extraction helpers shared by the product and search parsers:
//! candidate-selector lookup, review-count and currency parsing, and the
//! not-found heuristic.

use vstd::prelude::*;
use vstd::string::StringExecFns;

use crate::dom::{query_first_attr, query_first_text};
use crate::text::{
    chars_of, digits_of, digits_value, parse_digits_u32, spec_contains, spec_starts_with,
    spec_trim, split_chars, starts_with_chars, str_contains, string_of, trim_chars, upper_chars,
};

verus! {

/// Extract text from one element's HTML by trying comma-separated CSS
/// selectors in order; the first selector whose match has non-empty trimmed
/// text wins.
pub fn extract_element_text(el_html: &str, selectors: &str) -> (r: Option<String>)
    ensures
        r matches Some(t) ==> t@.len() > 0,
{
    let sel_chars = chars_of(selectors);
    let parts = split_chars(sel_chars.as_slice(), ',');
    let n = parts.len();
    let mut i: usize = 0;
    while i < n
        invariant
            n == parts@.len(),
        decreases n - i,
    {
        let trimmed = trim_chars(parts[i].as_slice());
        let sel = string_of(trimmed.as_slice());
        if let Some(text) = query_first_text(el_html, sel.as_str(), " ") {
            let tc = chars_of(text.as_str());
            let tt = trim_chars(tc.as_slice());
            if tt.len() > 0 {
                return Some(string_of(tt.as_slice()));
            }
        }
        i = i + 1;
    }
    None
}

/// Extract text from a document by trying comma-separated CSS selectors.
pub fn extract_text(html: &str, selectors: &str) -> (r: Option<String>)
    ensures
        r matches Some(t) ==> t@.len() > 0,
{
    extract_element_text(html, selectors)
}

/// Parse a review count from text by extracting its digits.
pub fn parse_review_count(text: &str) -> (r: Option<u32>)
    ensures
        ({
            let d = digits_of(text@);
            if d.len() == 0 || digits_value(d) > u32::MAX {
                r is None
            } else {
                r == Some(digits_value(d) as u32)
            }
        }),
{
    let cs = chars_of(text);
    parse_digits_u32(cs.as_slice())
}

/// Markers of a 404 page.
pub open spec fn spec_is_not_found(html: Seq<char>) -> bool {
    ||| spec_contains(html, "Page Not Found"@)
    ||| spec_contains(html, "<title>404</title>"@)
    ||| spec_contains(html, "404 Not Found"@)
}

/// Whether the HTML indicates a not-found page.
pub fn is_not_found_page(html: &str) -> (r: bool)
    ensures
        r == spec_is_not_found(html@),
{
    str_contains(html, "Page Not Found") || str_contains(html, "<title>404</title>")
        || str_contains(html, "404 Not Found")
}

/// The currency code a price prefix denotes, applied to the trimmed text:
/// the fixed symbol table of the site's supported currencies.
pub open spec fn spec_currency_of(text: Seq<char>) -> Option<Seq<char>> {
    let s = spec_trim(text);
    if spec_starts_with(s, "$"@) {
        Some("USD"@)
    } else if spec_starts_with(s, "€"@) {
        Some("EUR"@)
    } else if spec_starts_with(s, "£"@) {
        Some("GBP"@)
    } else if spec_starts_with(s, "CHF"@) {
        Some("CHF"@)
    } else if spec_starts_with(s, "CA$"@) || spec_starts_with(s, "C$"@) {
        Some("CAD"@)
    } else if spec_starts_with(s, "A$"@) || spec_starts_with(s, "AU$"@) {
        Some("AUD"@)
    } else if spec_starts_with(s, "¥"@) {
        Some("JPY"@)
    } else if spec_starts_with(s, "₩"@) {
        Some("KRW"@)
    } else {
        None
    }
}

/// Detect a currency from the leading symbol of a price text.
pub fn detect_currency_from_text(text: &str) -> (r: Option<String>)
    ensures
        match spec_currency_of(text@) {
            Option::Some(code) => r matches Some(c) && c@ == code,
            Option::None => r is None,
        },
{
    let tc = chars_of(text);
    let t = trim_chars(tc.as_slice());
    let s = t.as_slice();
    if starts_with_lit(s, "$") {
        Some(String::from_str("USD"))
    } else if starts_with_lit(s, "€") {
        Some(String::from_str("EUR"))
    } else if starts_with_lit(s, "£") {
        Some(String::from_str("GBP"))
    } else if starts_with_lit(s, "CHF") {
        Some(String::from_str("CHF"))
    } else if starts_with_lit(s, "CA$") || starts_with_lit(s, "C$") {
        Some(String::from_str("CAD"))
    } else if starts_with_lit(s, "A$") || starts_with_lit(s, "AU$") {
        Some(String::from_str("AUD"))
    } else if starts_with_lit(s, "¥") {
        Some(String::from_str("JPY"))
    } else if starts_with_lit(s, "₩") {
        Some(String::from_str("KRW"))
    } else {
        None
    }
}

fn starts_with_lit(s: &[char], lit: &str) -> (r: bool)
    ensures
        r == spec_starts_with(s@, lit@),
{
    let lc = chars_of(lit);
    starts_with_chars(s, lc.as_slice())
}

/// Detect the currency of a page: an explicit currency meta field first,
/// upper-cased; else the leading symbol of the first price text.
pub fn detect_currency_from_html(html: &str) -> (r: Option<String>)
    ensures
        r matches Some(c) ==> c@.len() > 0,
{
    if let Some(code) = query_first_attr(html, "meta[itemprop='priceCurrency']", "content") {
        let cc = chars_of(code.as_str());
        let t = trim_chars(cc.as_slice());
        let up = upper_chars(t.as_slice());
        if up.len() > 0 {
            return Some(string_of(up.as_slice()));
        }
    }
    if let Some(text) = query_first_text(html, "span.price bdi, div.price bdi, .product-price bdi", "")
        {
        let r = detect_currency_from_text(text.as_str());
        proof {
            if spec_currency_of(text@) is Some {
                reveal_strlit("USD");
                reveal_strlit("EUR");
                reveal_strlit("GBP");
                reveal_strlit("CHF");
                reveal_strlit("CAD");
                reveal_strlit("AUD");
                reveal_strlit("JPY");
                reveal_strlit("KRW");
            }
        }
        return r;
    }
    None
}

} // verus!
