use iherb_cli::model::{ProductSummary, SearchResult};
use iherb_cli::search::{
    build_search_url, extract_id_from_url, extract_search, extract_total_results, pages_needed,
    parse_price, parse_search_from_html, urlencoded, SearchAccum,
};

#[test]
fn pages_needed_examples() {
    assert_eq!(pages_needed(10), 1);
    assert_eq!(pages_needed(48), 1);
    assert_eq!(pages_needed(49), 2);
    assert_eq!(pages_needed(0), 0);
    assert_eq!(pages_needed(96), 2);
    assert_eq!(pages_needed(97), 3);
}

#[test]
fn urlencoded_escapes() {
    assert_eq!(urlencoded("vitamin c"), "vitamin+c");
    assert_eq!(urlencoded("a&b=c#d"), "a%26b%3Dc%23d");
    assert_eq!(urlencoded("plain"), "plain");
}

#[test]
fn search_url_layout() {
    assert_eq!(
        build_search_url("https://www.iherb.com", "vitamin c", "relevance", None, 1),
        "https://www.iherb.com/search?kw=vitamin+c"
    );
    assert_eq!(
        build_search_url("https://ch.iherb.com", "omega 3", "price-asc", Some("777"), 3),
        "https://ch.iherb.com/search?kw=omega+3&sr=4&cids=777&p=3"
    );
    assert_eq!(
        build_search_url("https://www.iherb.com", "zinc", "best-selling", None, 2),
        "https://www.iherb.com/search?kw=zinc&sr=2&p=2"
    );
}

#[test]
fn id_from_url_takes_last_numeric_segment() {
    assert_eq!(
        extract_id_from_url("https://www.iherb.com/pr/some-product/12345"),
        Some(String::from("12345"))
    );
    assert_eq!(
        extract_id_from_url("https://www.iherb.com/pr/12345/variant-x"),
        Some(String::from("12345"))
    );
    assert_eq!(extract_id_from_url("https://www.iherb.com/pr/no-id"), None);
}

#[test]
fn strict_card_price_parse() {
    assert_eq!(parse_price("$10.99"), Some(1099));
    assert_eq!(parse_price("1,299.95"), Some(129995));
    assert_eq!(parse_price("n/a"), None);
}

fn card(id: &str, name: &str, price: &str, old_price: &str) -> String {
    let mut s = String::new();
    s.push_str("<div class=\"product-cell-container\"><div class=\"product ga-product\" data-is-out-of-stock=\"false\">");
    s.push_str("<a class=\"absolute-link product-link\" href=\"https://www.iherb.com/pr/item/");
    s.push_str(id);
    s.push_str("\" data-product-id=\"");
    s.push_str(id);
    s.push_str("\" data-ga-brand-name=\"Acme\" data-ga-discount-price=\"");
    s.push_str(price);
    s.push_str("\" title=\"");
    s.push_str(name);
    s.push_str("\"></a><div class=\"product-title\"><bdi>");
    s.push_str(name);
    s.push_str("</bdi></div><span class=\"price-olp\"><bdi>");
    s.push_str(old_price);
    s.push_str("</bdi></span><a class=\"stars\" title=\"4.7/5 - 100 Reviews\"></a>");
    s.push_str("<a class=\"rating-count\"><span>1,234</span></a></div></div>");
    s
}

fn three_card_page() -> String {
    let mut html = String::from("<html><body>");
    html.push_str(&card("11111", "Product A", "$10.99", "$15.99"));
    html.push_str(&card("22222", "Product B", "$8.00", "$6.00"));
    html.push_str(&card("33333", "Product C", "$5.49", ""));
    html.push_str("</body></html>");
    html
}

#[test]
fn dom_cards_become_summaries() {
    let html = three_card_page();
    let r = parse_search_from_html(&html, "vitamin c", "https://www.iherb.com", "USD").unwrap();
    assert_eq!(r.query, "vitamin c");
    assert_eq!(r.products.len(), 3);
    let a = &r.products[0];
    assert_eq!(a.product_id, "11111");
    assert_eq!(a.name, "Product A");
    assert_eq!(r.products[1].product_id, "22222");
    assert_eq!(r.products[2].product_id, "33333");
}

#[test]
fn dom_card_fields() {
    let html = three_card_page();
    let r = parse_search_from_html(&html, "q", "https://www.iherb.com", "USD").unwrap();
    let a = &r.products[0];
    assert_eq!(a.name, "Product A");
    assert_eq!(a.brand, "Acme");
    assert_eq!(a.price, 1099);
    assert_eq!(a.original_price, Some(1599));
    assert_eq!(a.rating, Some(470));
    assert_eq!(a.review_count, Some(1234));
    assert!(a.in_stock);
    assert_eq!(a.product_url, "https://www.iherb.com/pr/item/11111");
    // A "list price" below the current price is never surfaced.
    let b = &r.products[1];
    assert_eq!(b.price, 800);
    assert_eq!(b.original_price, None);
    // An empty strike-through text yields no original price.
    let c = &r.products[2];
    assert_eq!(c.price, 549);
    assert_eq!(c.original_price, None);
}

#[test]
fn cards_without_name_and_id_are_dropped() {
    let html = "<html><body><div class=\"product-cell-container\"><span>bare card</span></div></body></html>";
    let r = parse_search_from_html(html, "q", "https://www.iherb.com", "USD").unwrap();
    assert_eq!(r.products.len(), 0);
}

#[test]
fn total_results_from_banner() {
    let html = "<html><body><div class=\"sub-sort-title display-items\">1 - 48 of 12,008 results for vitamin</div></body></html>";
    assert_eq!(extract_total_results(html), Some(12008));
    let html2 = "<html><body><span id=\"product-count\" data-count=\"3,456\"></span></body></html>";
    assert_eq!(extract_total_results(html2), Some(3456));
    assert_eq!(extract_total_results("<html></html>"), None);
}

#[test]
fn page_data_blob_wins_over_dom() {
    let html = three_card_page();
    let blob = "{\"props\":{\"pageProps\":{\"products\":[{\"title\":\"Blob Product\",\"id\":99,\"price\":9.99,\"listPrice\":12.5,\"rating\":4.5,\"reviewCount\":7,\"inStock\":true}],\"totalResults\":55}}}";
    let r = extract_search(&html, Some(blob), "q", "https://www.iherb.com", "USD").unwrap();
    assert_eq!(r.products.len(), 1);
    let p = &r.products[0];
    assert_eq!(p.name, "Blob Product");
    assert_eq!(p.product_id, "99");
    assert_eq!(p.price, 999);
    assert_eq!(p.original_price, Some(1250));
    assert_eq!(p.rating, Some(450));
    assert_eq!(p.review_count, Some(7));
    assert_eq!(r.total_results, Some(55));
}

#[test]
fn unusable_blob_falls_through_to_dom() {
    let html = three_card_page();
    let blob = "{\"props\":{\"pageProps\":{\"products\":[{\"price\":1.0}]}}}";
    let r = extract_search(&html, Some(blob), "q", "https://www.iherb.com", "USD").unwrap();
    assert_eq!(r.products.len(), 3);
}

fn summary(id: &str) -> ProductSummary {
    ProductSummary {
        name: format!("Item {}", id),
        brand: String::new(),
        price: 100,
        original_price: None,
        currency: String::from("USD"),
        rating: None,
        review_count: None,
        product_url: String::new(),
        product_id: String::from(id),
        in_stock: true,
    }
}

fn page_of(ids: &[&str], total: Option<u32>) -> SearchResult {
    SearchResult {
        query: String::from("q"),
        total_results: total,
        products: ids.iter().map(|id| summary(id)).collect(),
    }
}

#[test]
fn three_results_under_a_limit_of_ten() {
    // One page is planned for a limit of ten; it yields three summaries and
    // the next (empty) page would end the loop anyway.
    assert_eq!(pages_needed(10), 1);
    let mut acc = SearchAccum::new(10);
    assert!(acc.wants_page(1, 1));
    let stop = acc.add_page(page_of(&["1", "2", "3"], Some(3)));
    assert!(!stop);
    assert!(!acc.wants_page(2, 1));
    let r = acc.finish(String::from("q")).unwrap();
    assert_eq!(r.products.len(), 3);
    assert_eq!(r.total_results, Some(3));
}

#[test]
fn empty_page_ends_the_loop() {
    let mut acc = SearchAccum::new(100);
    let stop = acc.add_page(page_of(&["1", "2", "3"], None));
    assert!(!stop);
    let stop = acc.add_page(page_of(&[], None));
    assert!(stop);
    let r = acc.finish(String::from("q")).unwrap();
    assert_eq!(r.products.len(), 3);
}

#[test]
fn results_truncate_to_the_limit() {
    let mut acc = SearchAccum::new(2);
    acc.add_page(page_of(&["1", "2", "3"], None));
    let r = acc.finish(String::from("q")).unwrap();
    assert_eq!(r.products.len(), 2);
    assert_eq!(r.products[0].product_id, "1");
    assert_eq!(r.products[1].product_id, "2");
}

#[test]
fn no_results_is_an_error() {
    let acc = SearchAccum::new(10);
    let r = acc.finish(String::from("nothing"));
    assert!(r.is_err());
}
