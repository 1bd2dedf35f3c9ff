//! Search extraction and pagination: search-URL construction, the two-tier
//! extraction cascade (page-data blob first, then DOM card scraping), and
//! the sequential page accumulator that stops early once the requested
//! limit is met or a page comes back empty.

use vstd::prelude::*;
use vstd::string::StrSliceExecFns;
use vstd::string::StringExecFns;

use crate::dom::{query_all_html, query_first_attr, query_first_text};
use crate::error::IherbError;
use crate::helpers::{detect_currency_from_html, extract_element_text, parse_review_count};
use crate::jsonval::{
    json_array_len, json_get, json_get_or, json_index, json_number_string, json_parse, json_str,
    json_str_field, json_u64,
};
use crate::model::{search_result_wf, summary_wf, ProductSummary, SearchResult};
use crate::price::parse_decimal_hundredths;
use crate::product::parse_rating_title;
use crate::text::{
    all_digits, chars_of, dec_chars, digits_of, find_sub, is_all_digits, is_digit_char,
    last_digit_piece, lower_chars, spec_split, split_chars, starts_with_chars, str_eq, string_of,
    u64_to_chars,
};

verus! {

/// Number of result cards the site places on one search page.
pub const RESULTS_PER_PAGE: usize = 48;

/// Pages that must be fetched to gather `limit` results, by ceiling division.
pub open spec fn spec_pages_needed(limit: nat) -> nat {
    if limit == 0 {
        0
    } else {
        ((limit - 1) / (RESULTS_PER_PAGE as int) + 1) as nat
    }
}

/// Calculate how many pages are needed for the desired limit.
pub fn pages_needed(limit: usize) -> (r: usize)
    ensures
        r == spec_pages_needed(limit as nat),
        limit > 0 ==> (r - 1) * (RESULTS_PER_PAGE as int) < limit <= r * (RESULTS_PER_PAGE as int),
{
    if limit == 0 {
        0
    } else {
        let r = (limit - 1) / RESULTS_PER_PAGE + 1;
        proof {
            let p = RESULTS_PER_PAGE as int;
            let l = limit as int;
            assert((r - 1) * p < l <= r * p) by (nonlinear_arith)
                requires
                    r == (l - 1) / p + 1,
                    p == 48,
                    l >= 1,
            ;
        }
        r
    }
}

/// The escaping applied to one query character in a search URL.
pub open spec fn spec_enc_char(c: char) -> Seq<char> {
    if c == ' ' {
        "+"@
    } else if c == '&' {
        "%26"@
    } else if c == '=' {
        "%3D"@
    } else if c == '#' {
        "%23"@
    } else {
        seq![c]
    }
}

/// The URL-encoded form of a query string.
pub open spec fn spec_urlencoded(s: Seq<char>) -> Seq<char>
    decreases s.len(),
{
    if s.len() == 0 {
        Seq::empty()
    } else {
        spec_urlencoded(s.drop_last()) + spec_enc_char(s.last())
    }
}

/// Escape a query for use in a search URL: spaces become plus signs and the
/// separator characters are percent-escaped.
pub fn urlencoded(s: &str) -> (r: String)
    ensures
        r@ == spec_urlencoded(s@),
{
    let cs = chars_of(s);
    let n = cs.len();
    let mut out: Vec<char> = Vec::new();
    let mut i: usize = 0;
    while i < n
        invariant
            n == cs@.len(),
            cs@ == s@,
            i <= n,
            out@ == spec_urlencoded(s@.take(i as int)),
        decreases n - i,
    {
        proof {
            assert(s@.take(i + 1).drop_last() =~= s@.take(i as int));
            assert(s@.take(i + 1).last() == s@[i as int]);
            reveal_strlit("+");
            reveal_strlit("%26");
            reveal_strlit("%3D");
            reveal_strlit("%23");
        }
        let c = cs[i];
        if c == ' ' {
            out.push('+');
        } else if c == '&' {
            out.push('%');
            out.push('2');
            out.push('6');
        } else if c == '=' {
            out.push('%');
            out.push('3');
            out.push('D');
        } else if c == '#' {
            out.push('%');
            out.push('2');
            out.push('3');
        } else {
            out.push(c);
        }
        i = i + 1;
        proof {
            assert(out@ =~= spec_urlencoded(s@.take(i as int)));
        }
    }
    proof {
        assert(s@.take(n as int) =~= s@);
    }
    string_of(out.as_slice())
}

/// The query-string fragment selecting a sort order, by its token.
pub open spec fn spec_sort_param(sort: Seq<char>) -> Seq<char> {
    if sort == "price-asc"@ {
        "&sr=4"@
    } else if sort == "price-desc"@ {
        "&sr=3"@
    } else if sort == "rating"@ {
        "&sr=1"@
    } else if sort == "best-selling"@ {
        "&sr=2"@
    } else {
        ""@
    }
}

/// The full search URL for one page of results.
pub open spec fn spec_build_search_url(
    base_url: Seq<char>,
    query: Seq<char>,
    sort: Seq<char>,
    category: Option<Seq<char>>,
    page_num: int,
) -> Seq<char> {
    base_url + "/search?kw="@ + spec_urlencoded(query) + spec_sort_param(sort) + (match category {
        Option::Some(c) => "&cids="@ + c,
        Option::None => Seq::empty(),
    }) + (if page_num > 1 {
        "&p="@ + dec_chars(page_num)
    } else {
        Seq::empty()
    })
}

/// Build the search URL for `page_num` (1-based): the encoded query, the
/// sort fragment, the optional category filter, and the page number when
/// beyond the first page.
pub fn build_search_url(
    base_url: &str,
    query: &str,
    sort: &str,
    category: Option<&str>,
    page_num: usize,
) -> (r: String)
    ensures
        r@ == spec_build_search_url(
            base_url@,
            query@,
            sort@,
            match category {
                Option::Some(c) => Some(c@),
                Option::None => None,
            },
            page_num as int,
        ),
{
    let mut r = String::from_str(base_url);
    r.append("/search?kw=");
    let q = urlencoded(query);
    r.append(q.as_str());
    let sort_param = if str_eq(sort, "price-asc") {
        "&sr=4"
    } else if str_eq(sort, "price-desc") {
        "&sr=3"
    } else if str_eq(sort, "rating") {
        "&sr=1"
    } else if str_eq(sort, "best-selling") {
        "&sr=2"
    } else {
        ""
    };
    r.append(sort_param);
    if let Some(cat) = category {
        r.append("&cids=");
        r.append(cat);
    }
    if page_num > 1 {
        r.append("&p=");
        let digits = u64_to_chars(page_num as u64);
        let ds = string_of(digits.as_slice());
        r.append(ds.as_str());
    }
    r
}

/// The trailing numeric path segment of a product URL: the last
/// slash-separated piece that is wholly digits.
pub fn extract_id_from_url(url: &str) -> (r: Option<String>)
    ensures
        match last_digit_piece(spec_split(url@, '/')) {
            Option::Some(seg) => r matches Some(s) && s@ == seg,
            Option::None => r is None,
        },
{
    let cs = chars_of(url);
    let pieces = split_chars(cs.as_slice(), '/');
    let ghost target = spec_split(url@, '/');
    let mut i: usize = pieces.len();
    proof {
        assert(target.take(pieces@.len() as int) =~= target);
    }
    while i > 0
        invariant
            target == spec_split(url@, '/'),
            pieces@.len() == target.len(),
            forall|j: int| 0 <= j < pieces@.len() ==> (#[trigger] pieces@[j])@ == target[j],
            i <= pieces@.len(),
            last_digit_piece(target) == last_digit_piece(target.take(i as int)),
        decreases i,
    {
        proof {
            assert(target.take(i as int).last() == target[i - 1]);
            assert(target.take(i as int).drop_last() =~= target.take(i - 1));
        }
        if is_all_digits(pieces[i - 1].as_slice()) {
            proof {
                assert(pieces@[i - 1]@ == target[i - 1]);
                assert(all_digits(target.take(i as int).last()));
                assert(last_digit_piece(target.take(i as int)) == Some(target[i - 1]));
            }
            return Some(string_of(pieces[i - 1].as_slice()));
        }
        i = i - 1;
    }
    proof {
        assert(target.take(0) =~= Seq::<Seq<char>>::empty());
    }
    None
}

/// Parse a search results page from the page-data blob. `None` when the blob
/// has no product array or no item yields a summary; an item without a
/// usable identifier is dropped, not a failure.
pub fn parse_search_from_next_data(
    data: &serde_json::Value,
    query: &str,
    base_url: &str,
) -> (r: Option<SearchResult>)
    ensures
        r matches Some(sr) ==> search_result_wf(sr) && sr.query@ == query@ && sr.products@.len()
            > 0,
{
    let props = match json_get(data, "props") {
        Some(p) => p,
        None => {
            return None;
        },
    };
    let props = match json_get(props, "pageProps") {
        Some(p) => p,
        None => {
            return None;
        },
    };
    let arr = match json_get_or(props, "products", "searchResults") {
        Some(a) => Some(a),
        None => json_get(props, "items"),
    };
    let arr = match arr {
        Some(a) => a,
        None => {
            return None;
        },
    };
    let len = match json_array_len(arr) {
        Some(l) => l,
        None => {
            return None;
        },
    };
    let total = match json_get_or(props, "totalResults", "totalCount") {
        Some(v) => match json_u64(v) {
            Some(n) => Some(#[verifier::truncate] (n as u32)),
            None => None,
        },
        None => None,
    };
    let mut products: Vec<ProductSummary> = Vec::new();
    let mut i: usize = 0;
    while i < len
        invariant
            forall|k: int| 0 <= k < products@.len() ==> summary_wf(#[trigger] products@[k]),
        decreases len - i,
    {
        if let Some(item) = json_index(arr, i) {
            if let Some(p) = parse_product_summary_json(item, base_url) {
                products.push(p);
            }
        }
        i = i + 1;
    }
    if products.len() == 0 {
        return None;
    }
    Some(SearchResult { query: String::from_str(query), total_results: total, products })
}

/// Parse one product summary from a page-data item. `None` when the item
/// has no name or no usable identifier.
pub fn parse_product_summary_json(item: &serde_json::Value, base_url: &str) -> (r: Option<
    ProductSummary,
>)
    ensures
        r matches Some(p) ==> summary_wf(p),
{
    let name = match json_get_or(item, "title", "name") {
        Some(v) => match json_str(v) {
            Some(s) => s,
            None => {
                return None;
            },
        },
        None => {
            return None;
        },
    };
    let brand = match json_str_field(item, "brandName") {
        Some(b) => b,
        None => {
            match json_get(item, "brand") {
                Some(b) => match json_str_field(b, "name") {
                    Some(s) => s,
                    None => match json_str(b) {
                        Some(s) => s,
                        None => String::new(),
                    },
                },
                None => String::new(),
            }
        },
    };
    let product_id = match json_get_or(item, "id", "productId") {
        Some(v) => match json_str(v) {
            Some(s) => Some(s),
            None => match json_u64(v) {
                Some(n) => {
                    let digits = u64_to_chars(n);
                    Some(string_of(digits.as_slice()))
                },
                None => None,
            },
        },
        None => None,
    };
    let product_id = match product_id {
        Some(id) => id,
        None => {
            return None;
        },
    };
    let price = match json_get_or(item, "price", "discountPrice") {
        Some(v) => match number_cents(v) {
            Some(p) => p,
            None => 0,
        },
        None => 0,
    };
    let original_price = match json_get_or(item, "listPrice", "retailPrice") {
        Some(v) => match number_cents(v) {
            Some(op) => {
                if op > price {
                    Some(op)
                } else {
                    None
                }
            },
            None => None,
        },
        None => None,
    };
    let currency = match json_str_field(item, "currency") {
        Some(c) => c,
        None => String::from_str("USD"),
    };
    let rating = match json_get(item, "rating") {
        Some(v) => match json_number_string(v) {
            Some(s) => {
                let cs = chars_of(s.as_str());
                match parse_decimal_hundredths(cs.as_slice()) {
                    Some(h) => {
                        if h <= 0xffff_ffffu64 {
                            Some(h as u32)
                        } else {
                            None
                        }
                    },
                    None => None,
                }
            },
            None => None,
        },
        None => None,
    };
    let review_count = match json_get(item, "reviewCount") {
        Some(v) => match json_u64(v) {
            Some(n) => Some(#[verifier::truncate] (n as u32)),
            None => None,
        },
        None => None,
    };
    let in_stock = match json_get(item, "inStock") {
        Some(v) => match crate::jsonval::json_bool(v) {
            Some(b) => b,
            None => true,
        },
        None => true,
    };
    let product_url = match json_get_or(item, "url", "productUrl") {
        Some(v) => match json_str(v) {
            Some(u) => {
                let uc = chars_of(u.as_str());
                let http = chars_of("http");
                if starts_with_chars(uc.as_slice(), http.as_slice()) {
                    u
                } else {
                    let mut full = String::from_str(base_url);
                    full.append(u.as_str());
                    full
                }
            },
            None => summary_url_of(base_url, product_id.as_str()),
        },
        None => summary_url_of(base_url, product_id.as_str()),
    };
    Some(
        ProductSummary {
            name,
            brand,
            price,
            original_price,
            currency,
            rating,
            review_count,
            product_url,
            product_id,
            in_stock,
        },
    )
}

fn summary_url_of(base_url: &str, product_id: &str) -> (r: String)
    ensures
        r@ == base_url@ + "/pr/p/"@ + product_id@,
{
    let mut r = String::from_str(base_url);
    r.append("/pr/p/");
    r.append(product_id);
    r
}

fn number_cents(v: &serde_json::Value) -> (r: Option<u64>) {
    match json_number_string(v) {
        Some(s) => {
            let cs = chars_of(s.as_str());
            parse_decimal_hundredths(cs.as_slice())
        },
        None => None,
    }
}

/// The characters of `s` that are digits or dots, in order.
pub open spec fn kept_digits_dots(s: Seq<char>) -> Seq<char>
    decreases s.len(),
{
    if s.len() == 0 {
        Seq::empty()
    } else if is_digit_char(s.last()) || s.last() == '.' {
        kept_digits_dots(s.drop_last()).push(s.last())
    } else {
        kept_digits_dots(s.drop_last())
    }
}

/// Strict numeric parse used on search-card price attributes: every
/// character but digits and dots dropped first, then read as one plain
/// decimal, in cents.
pub fn parse_price(s: &str) -> (r: Option<u64>)
    ensures
        match crate::price::spec_decimal_value(kept_digits_dots(s@)) {
            Option::None => r is None,
            Option::Some(v) => if v <= u64::MAX {
                r == Some(v as u64)
            } else {
                r is None
            },
        },
{
    let cs = chars_of(s);
    let mut cleaned: Vec<char> = Vec::new();
    let n = cs.len();
    let mut i: usize = 0;
    while i < n
        invariant
            n == cs@.len(),
            cs@ == s@,
            i <= n,
            cleaned@ == kept_digits_dots(s@.take(i as int)),
        decreases n - i,
    {
        proof {
            assert(s@.take(i + 1).drop_last() =~= s@.take(i as int));
        }
        let c = cs[i];
        if crate::text::is_digit(c) || c == '.' {
            cleaned.push(c);
        }
        i = i + 1;
    }
    proof {
        assert(s@.take(n as int) =~= s@);
    }
    parse_decimal_hundredths(cleaned.as_slice())
}

/// The site-reported total result count of a search page: the hidden count
/// attribute first, else the "1 - 48 of 12,008 results" banner. Only a
/// positive count is reported.
pub fn extract_total_results(html: &str) -> (r: Option<u32>)
    ensures
        r matches Some(n) ==> n > 0,
{
    if let Some(count) = query_first_attr(html, "span#product-count", "data-count") {
        if let Some(n) = parse_count_text(count.as_str()) {
            return Some(n);
        }
    }
    if let Some(n) = banner_count(html, "div.sub-sort-title.display-items") {
        return Some(n);
    }
    if let Some(n) = banner_count(html, ".display-items") {
        return Some(n);
    }
    None
}

/// A strictly positive count written with digits and optional comma
/// separators and nothing else: `None` on any other character, on no digit
/// at all, on zero, and beyond `u32::MAX`.
pub open spec fn spec_count_text(s: Seq<char>) -> Option<int> {
    if (forall|k: int| 0 <= k < s.len() ==> (is_digit_char(#[trigger] s[k]) || s[k] == ','))
        && digits_of(s).len() > 0 && 0 < crate::text::digits_value(digits_of(s)) <= u32::MAX {
        Some(crate::text::digits_value(digits_of(s)))
    } else {
        None
    }
}

/// Parse a count such as "12,008"; only a positive count is reported.
fn parse_count_text(s: &str) -> (r: Option<u32>)
    ensures
        match spec_count_text(s@) {
            Option::Some(v) => r == Some(v as u32),
            Option::None => r is None,
        },
        r matches Some(n) ==> n > 0,
{
    let cs = chars_of(s);
    let mut cleaned: Vec<char> = Vec::new();
    let n = cs.len();
    let mut i: usize = 0;
    while i < n
        invariant
            n == cs@.len(),
            cs@ == s@,
            i <= n,
            cleaned@ == digits_of(s@.take(i as int)),
            forall|k: int|
                0 <= k < i ==> (is_digit_char(#[trigger] s@[k]) || s@[k] == ','),
            forall|k: int|
                0 <= k < cleaned@.len() ==> is_digit_char(#[trigger] cleaned@[k]),
        decreases n - i,
    {
        proof {
            assert(s@.take(i + 1).drop_last() =~= s@.take(i as int));
        }
        let c = cs[i];
        if c == ',' {
        } else if crate::text::is_digit(c) {
            cleaned.push(c);
        } else {
            return None;
        }
        i = i + 1;
    }
    proof {
        assert(s@.take(n as int) =~= s@);
    }
    if cleaned.len() == 0 {
        return None;
    }
    proof {
        crate::text::lemma_digits_value_nonneg(cleaned@);
    }
    match crate::text::digits_to_u64(cleaned.as_slice()) {
        Some(v) => {
            if 0 < v && v <= 0xffff_ffffu64 {
                Some(v as u32)
            } else {
                None
            }
        },
        None => None,
    }
}

/// The count in a "1 - 48 of 12,008 results for ..." banner.
fn banner_count(html: &str, selector: &str) -> (r: Option<u32>)
    ensures
        r matches Some(n) ==> n > 0,
{
    let text = match query_first_text(html, selector, "") {
        Some(t) => t,
        None => {
            return None;
        },
    };
    let tc = chars_of(text.as_str());
    let marker = chars_of("of ");
    proof {
        reveal_strlit("of ");
    }
    let idx = match find_sub(tc.as_slice(), marker.as_slice()) {
        Some(i) => i,
        None => {
            return None;
        },
    };
    let n = tc.len();
    let mut num: Vec<char> = Vec::new();
    let mut i: usize = idx + 3;
    while i < n
        invariant
            idx + 3 <= i <= n,
            n == tc@.len(),
            forall|k: int| 0 <= k < num@.len() ==> is_digit_char(#[trigger] num@[k]),
        decreases n - i,
    {
        let c = tc[i];
        if crate::text::is_digit(c) {
            num.push(c);
        } else if c == ',' {
        } else {
            break ;
        }
        i = i + 1;
    }
    if num.len() == 0 {
        return None;
    }
    match crate::text::digits_to_u64(num.as_slice()) {
        Some(v) => {
            if 0 < v && v <= 0xffff_ffffu64 {
                Some(v as u32)
            } else {
                None
            }
        },
        None => None,
    }
}

/// An attribute value from a child of one result card; empty values count
/// as absent.
pub fn extract_card_attr(card_html: &str, selector: &str, attr: &str) -> (r: Option<String>)
    ensures
        r matches Some(t) ==> t@.len() > 0,
{
    match query_first_attr(card_html, selector, attr) {
        Some(v) => {
            if v.as_str().unicode_len() > 0 {
                Some(v)
            } else {
                None
            }
        },
        None => None,
    }
}

/// Text from a child of one result card, by candidate selectors.
pub fn extract_card_text_inner(card_html: &str, selectors: &str) -> (r: Option<String>)
    ensures
        r matches Some(t) ==> t@.len() > 0,
{
    extract_element_text(card_html, selectors)
}

/// Parse a search results page from its DOM: one summary per result card;
/// a card missing both an extractable name and an identifier is dropped.
/// One currency is detected for the page, so every summary of one page
/// carries the same currency.
pub fn parse_search_from_html(
    html: &str,
    query: &str,
    base_url: &str,
    currency: &str,
) -> (r: Result<SearchResult, IherbError>)
    ensures
        r matches Ok(sr) ==> search_result_wf(sr) && sr.query@ == query@,
        r matches Ok(sr) ==> forall|a: int, b: int|
            0 <= a < sr.products@.len() && 0 <= b < sr.products@.len() ==> (
            #[trigger] sr.products@[a]).currency == (#[trigger] sr.products@[b]).currency,
        r is Ok,
{
    let total_results = extract_total_results(html);
    let detected_currency = match detect_currency_from_html(html) {
        Some(c) => c,
        None => String::from_str(currency),
    };
    let cards = query_all_html(html, "div.product-cell-container");
    let mut products: Vec<ProductSummary> = Vec::new();
    let n = cards.len();
    let mut i: usize = 0;
    while i < n
        invariant
            n == cards@.len(),
            forall|k: int| 0 <= k < products@.len() ==> summary_wf(#[trigger] products@[k]),
            forall|k: int|
                0 <= k < products@.len() ==> (#[trigger] products@[k]).currency
                    == detected_currency,
        decreases n - i,
    {
        let card = cards[i].as_str();
        let link_sel = "a.absolute-link.product-link, a.product-link";
        let product_id = match query_first_attr(card, link_sel, "data-product-id") {
            Some(id) => Some(id),
            None => match query_first_attr(card, link_sel, "data-ga-product-id") {
                Some(id) => Some(id),
                None => match query_first_attr(card, link_sel, "href") {
                    Some(href) => extract_id_from_url(href.as_str()),
                    None => None,
                },
            },
        };
        let name = match extract_card_attr(card, "div.product-title", "content") {
            Some(t) => Some(t),
            None => match extract_card_text_inner(
                card,
                "div.product-title bdi, div.product-title",
            ) {
                Some(t) => Some(t),
                None => query_first_attr(card, link_sel, "title"),
            },
        };
        let brand = query_first_attr(card, link_sel, "data-ga-brand-name");
        let price = match extract_card_attr(card, "meta[itemprop='price']", "content") {
            Some(s) => parse_price(s.as_str()),
            None => match query_first_attr(card, link_sel, "data-ga-discount-price") {
                Some(s) => parse_price(s.as_str()),
                None => None,
            },
        };
        let price = match price {
            Some(p) => p,
            None => 0,
        };
        let original_price = match extract_card_text_inner(
            card,
            "span.price-olp bdi, span.price-olp",
        ) {
            Some(s) => match parse_price(s.as_str()) {
                Some(op) => {
                    if op > price {
                        Some(op)
                    } else {
                        None
                    }
                },
                None => None,
            },
            None => None,
        };
        let rating = match query_first_attr(card, "a.stars", "title") {
            Some(title) => parse_rating_title(title.as_str()),
            None => None,
        };
        let review_count = match extract_card_text_inner(card, "a.rating-count span") {
            Some(s) => parse_review_count(s.as_str()),
            None => None,
        };
        let in_stock = match query_first_attr(
            card,
            "div.product.ga-product, div.product",
            "data-is-out-of-stock",
        ) {
            Some(s) => {
                let sc = chars_of(s.as_str());
                let sl = lower_chars(sc.as_slice());
                let t = chars_of("true");
                !crate::text::eq_chars(sl.as_slice(), t.as_slice())
            },
            None => match query_first_attr(card, link_sel, "data-ga-is-out-of-stock") {
                Some(s) => {
                    let sc = chars_of(s.as_str());
                    let sl = lower_chars(sc.as_slice());
                    let t = chars_of("true");
                    !crate::text::eq_chars(sl.as_slice(), t.as_slice())
                },
                None => true,
            },
        };
        if let (Some(name), Some(id)) = (name, product_id) {
            let product_url = match query_first_attr(card, link_sel, "href") {
                Some(h) => h,
                None => summary_url_of(base_url, id.as_str()),
            };
            products.push(
                ProductSummary {
                    name,
                    brand: match brand {
                        Some(b) => b,
                        None => String::new(),
                    },
                    price,
                    original_price,
                    currency: detected_currency.clone(),
                    rating,
                    review_count,
                    product_url,
                    product_id: id,
                    in_stock,
                },
            );
        }
        i = i + 1;
    }
    Ok(SearchResult { query: String::from_str(query), total_results, products })
}

/// Extract search results from a fetched page: the page-data blob first,
/// then DOM card scraping.
pub fn extract_search(
    html: &str,
    next_data_json: Option<&str>,
    query: &str,
    base_url: &str,
    currency: &str,
) -> (r: Result<SearchResult, IherbError>)
    ensures
        r matches Ok(sr) ==> search_result_wf(sr) && sr.query@ == query@,
        r is Ok,
{
    if let Some(next_text) = next_data_json {
        if let Some(next_data) = json_parse(next_text) {
            if let Some(result) = parse_search_from_next_data(&next_data, query, base_url) {
                return Ok(result);
            }
        }
    }
    parse_search_from_html(html, query, base_url, currency)
}

/// Accumulates summaries over sequentially fetched search pages, stopping
/// early once the requested limit is met or a page yields nothing.
pub struct SearchAccum {
    /// Requested maximum number of summaries.
    pub limit: usize,
    /// The site-reported total, from the first page that carried one.
    pub total_results: Option<u32>,
    /// Summaries gathered so far, in site order.
    pub products: Vec<ProductSummary>,
}

pub open spec fn accum_wf(a: SearchAccum) -> bool {
    forall|k: int| 0 <= k < a.products@.len() ==> summary_wf(#[trigger] a.products@[k])
}

impl SearchAccum {
    /// An empty accumulator for one search command.
    pub fn new(limit: usize) -> (r: Self)
        ensures
            r.limit == limit,
            r.total_results is None,
            r.products@.len() == 0,
            accum_wf(r),
    {
        SearchAccum { limit, total_results: None, products: Vec::new() }
    }

    /// Whether another page should be fetched before page `page_num`
    /// (1-based) of `total_pages` planned pages.
    pub fn wants_page(&self, page_num: usize, total_pages: usize) -> (r: bool)
        ensures
            r == (page_num <= total_pages && self.products@.len() < self.limit),
    {
        page_num <= total_pages && self.products.len() < self.limit
    }

    /// Take one fetched page. Returns true when the caller must stop
    /// fetching: the page was empty (end of results).
    pub fn add_page(&mut self, page: SearchResult) -> (stop: bool)
        ensures
            stop == (page.products@.len() == 0),
            final (self).limit == old(self).limit,
            stop ==> *final (self) == *old(self),
            !stop ==> final (self).products@ == old(self).products@ + page.products@,
            !stop ==> final (self).total_results == (if old(self).total_results is Some {
                old(self).total_results
            } else {
                page.total_results
            }),
            accum_wf(*old(self)) && search_result_wf(page) ==> accum_wf(*final (self)),
    {
        if page.products.len() == 0 {
            return true;
        }
        if self.total_results.is_none() {
            self.total_results = page.total_results;
        }
        let mut incoming = page.products;
        let ghost old_products = self.products@;
        let ghost incoming0 = incoming@;
        self.products.append(&mut incoming);
        proof {
            assert(self.products@ =~= old_products + incoming0);
        }
        false
    }

    /// Close the accumulation: the gathered summaries truncated to the
    /// limit, or the no-results error when nothing was gathered.
    pub fn finish(self, query: String) -> (r: Result<SearchResult, IherbError>)
        ensures
            r is Ok <==> self.products@.len() > 0,
            r matches Ok(sr) ==> {
                &&& sr.query == query
                &&& sr.total_results == self.total_results
                &&& sr.products@ == self.products@.take(
                    if self.limit <= self.products@.len() {
                        self.limit as int
                    } else {
                        self.products@.len() as int
                    },
                )
                &&& (accum_wf(self) ==> search_result_wf(sr))
            },
            r matches Err(e) ==> e is ProductNotFound,
    {
        if self.products.len() == 0 {
            let mut m = String::from_str("No search results found for: ");
            m.append(query.as_str());
            return Err(IherbError::ProductNotFound(m));
        }
        let mut products = self.products;
        products.truncate(self.limit);
        proof {
            assert(search_result_wf(
                SearchResult { query, total_results: self.total_results, products },
            ) <== accum_wf(self)) by {
                assert(forall|k: int|
                    0 <= k < products@.len() ==> products@[k] == self.products@[k]);
            }
        }
        Ok(SearchResult { query, total_results: self.total_results, products })
    }
}

} // verus!
