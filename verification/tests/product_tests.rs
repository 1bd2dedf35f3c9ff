use iherb_cli::error::IherbError;
use iherb_cli::product::{
    classify_facts_row, extract_product, extract_spec, parse_rating_title,
    parse_review_distribution_html, parse_supplement_facts_html, parse_width_percent,
    star_level_from_label, FactsRowKind,
};

#[test]
fn star_labels_name_their_level() {
    assert_eq!(star_level_from_label("5 stars"), Some(5));
    assert_eq!(star_level_from_label("1 star"), Some(1));
    assert_eq!(star_level_from_label("  3   stars  (12)"), Some(3));
    assert_eq!(star_level_from_label("7 stars"), None);
    assert_eq!(star_level_from_label("many stars"), None);
    assert_eq!(star_level_from_label("stars 5"), None);
    assert_eq!(star_level_from_label(""), None);
}

fn json_ld_page(name: &str, h1: &str) -> String {
    let mut s = String::from("<html><head><script type=\"application/ld+json\">");
    s.push_str("{\"@type\":\"Product\",\"name\":\"");
    s.push_str(name);
    s.push_str("\",\"brand\":{\"name\":\"Acme\"},\"offers\":{\"availability\":\"https://schema.org/InStock\",\"priceSpecification\":[");
    s.push_str("{\"price\":\"24.99\",\"priceCurrency\":\"USD\",\"priceType\":\"https://schema.org/StrikethroughPrice\"},");
    s.push_str("{\"price\":\"19.99\",\"priceCurrency\":\"USD\"}]},");
    s.push_str("\"aggregateRating\":{\"ratingValue\":\"4.8\",\"reviewCount\":\"42328\"},");
    s.push_str("\"description\":\"Buffered vitamin C.\",\"sku\":\"ACM-100\"}");
    s.push_str("</script></head><body><h1 id=\"name\">");
    s.push_str(h1);
    s.push_str("</h1></body></html>");
    s
}

#[test]
fn structured_price_specification_yields_discount() {
    // A strikethrough entry above the current price becomes the original
    // price; the non-strikethrough entry is the current price.
    let html = json_ld_page("Gold Vitamin C", "Some DOM Name");
    let p = extract_product(&html, None, None, "12345", "https://www.iherb.com", "USD").unwrap();
    assert_eq!(p.price, 1999);
    assert_eq!(p.original_price, Some(2499));
    assert_eq!(p.currency, "USD");
    assert_eq!(p.rating, Some(480));
    assert_eq!(p.review_count, Some(42328));
    assert!(p.in_stock);
    assert_eq!(p.description.as_deref(), Some("Buffered vitamin C."));
    assert_eq!(p.product_code.as_deref(), Some("ACM-100"));
}

#[test]
fn structured_name_wins_over_dom() {
    let html = json_ld_page("Gold Vitamin C", "Disagreeing DOM Name");
    let p = extract_product(&html, None, None, "12345", "https://www.iherb.com", "USD").unwrap();
    assert_eq!(p.name, "Gold Vitamin C");
    assert_eq!(p.brand, "Acme");
}

#[test]
fn empty_structured_name_falls_through_to_dom() {
    let mut html = json_ld_page("", "DOM Fallback Name");
    html.push_str("<input id=\"share-email-model\" data-discount-price=\"9.99\">");
    let p = extract_product(&html, None, None, "12345", "https://www.iherb.com", "USD").unwrap();
    assert_eq!(p.name, "DOM Fallback Name");
    assert_eq!(p.price, 999);
}

#[test]
fn dom_only_page_succeeds_via_dom() {
    let html = "<html><body><h1 id=\"name\">Plain DOM Product</h1>\
        <input id=\"share-email-model\" data-list-price=\"24.99\" data-discount-price=\"19.99\">\
        <a class=\"stars\" title=\"4.5/5 - 1,234 Reviews\"></a>\
        <a class=\"rating-count\"><span>1,234</span></a>\
        <div id=\"stock-status\"><div class=\"stock-status-content\"><strong>In Stock</strong></div></div>\
        </body></html>";
    let p = extract_product(html, None, None, "777", "https://www.iherb.com", "USD").unwrap();
    assert_eq!(p.name, "Plain DOM Product");
    assert_eq!(p.price, 1999);
    assert_eq!(p.original_price, Some(2499));
    assert_eq!(p.rating, Some(450));
    assert_eq!(p.review_count, Some(1234));
    assert!(p.in_stock);
    assert_eq!(p.product_url, "https://www.iherb.com/pr/p/777");
}

#[test]
fn script_globals_supply_name_and_price() {
    let html = "<html><body></body></html>";
    let globals = "{\"ihrProduct\":{\"prdNm\":\"Script Product\",\"brndNm\":\"Acme\",\"prc\":\"23,99\"}}";
    let p = extract_product(html, Some(globals), None, "55", "https://www.iherb.com", "CHF")
        .unwrap();
    assert_eq!(p.name, "Script Product");
    assert_eq!(p.brand, "Acme");
    assert_eq!(p.price, 2399);
    assert_eq!(p.currency, "CHF");
}

#[test]
fn page_data_blob_is_the_last_structured_fallback() {
    let html = "<html><body></body></html>";
    let blob = "{\"props\":{\"pageProps\":{\"product\":{\"title\":\"Blob Product\",\"brandName\":\"Acme\",\"price\":19.99,\"listPrice\":24.99,\"currency\":\"USD\",\"rating\":4.7,\"reviewCount\":12,\"inStock\":false,\"upc\":\"0123\"}}}}";
    let p = extract_product(html, None, Some(blob), "88", "https://www.iherb.com", "USD").unwrap();
    assert_eq!(p.name, "Blob Product");
    assert_eq!(p.price, 1999);
    assert_eq!(p.original_price, Some(2499));
    assert_eq!(p.rating, Some(470));
    assert_eq!(p.review_count, Some(12));
    assert!(!p.in_stock);
    assert_eq!(p.upc.as_deref(), Some("0123"));
}

#[test]
fn list_price_not_above_current_is_dropped() {
    let html = "<html><body></body></html>";
    let blob = "{\"props\":{\"pageProps\":{\"product\":{\"title\":\"No Discount\",\"price\":19.99,\"listPrice\":19.99}}}}";
    let p = extract_product(html, None, Some(blob), "88", "https://www.iherb.com", "USD").unwrap();
    assert_eq!(p.price, 1999);
    assert_eq!(p.original_price, None);
}

#[test]
fn structured_block_wins_over_script_globals() {
    let html = json_ld_page("Gold Vitamin C", "whatever");
    let globals = "{\"ihrProduct\":{\"prdNm\":\"Script Product\",\"prc\":\"1,00\"}}";
    let p = extract_product(&html, Some(globals), None, "12345", "https://www.iherb.com", "USD")
        .unwrap();
    assert_eq!(p.name, "Gold Vitamin C");
    assert_eq!(p.price, 1999);
}

#[test]
fn enrichment_fills_dom_only_fields_without_overwriting() {
    // The structured block succeeds; supplement facts exist only in the DOM
    // and are filled in by the enrichment pass.
    let mut html = json_ld_page("Gold Vitamin C", "ignored");
    html.push_str(facts_page());
    let p = extract_product(&html, None, None, "12345", "https://www.iherb.com", "USD").unwrap();
    assert_eq!(p.name, "Gold Vitamin C");
    assert_eq!(p.price, 1999);
    let facts = p.supplement_facts.expect("facts enriched from the DOM");
    assert_eq!(facts.nutrients.len(), 2);
    // The structured description is kept even though no DOM section exists.
    assert_eq!(p.description.as_deref(), Some("Buffered vitamin C."));
}

#[test]
fn not_found_page_is_the_not_found_outcome() {
    let html = "<html><head><title>404</title></head><body>nothing here</body></html>";
    let r = extract_product(html, None, None, "404404", "https://www.iherb.com", "USD");
    match r {
        Err(IherbError::ProductNotFound(id)) => assert_eq!(id, "404404"),
        _ => panic!("a not-found page must be reported as not found"),
    }
}

#[test]
fn templated_empty_page_is_not_found() {
    let html = "<html><body><h1></h1></body></html>";
    let r = extract_product(html, None, None, "1", "https://www.iherb.com", "USD");
    assert!(matches!(r, Err(IherbError::ProductNotFound(_))));
}

#[test]
fn named_page_without_price_rating_or_reviews_is_not_found() {
    // The validation gate: a templated page can carry a name yet no data.
    let html = "<html><body><h1 id=\"name\">Ghost Product</h1></body></html>";
    let r = extract_product(html, None, None, "2", "https://www.iherb.com", "USD");
    assert!(matches!(r, Err(IherbError::ProductNotFound(_))));
}

#[test]
fn not_found_marker_beats_structured_data() {
    // The marker check runs before any extraction strategy.
    let mut html = json_ld_page("Gold Vitamin C", "whatever");
    html.push_str("Page Not Found");
    let r = extract_product(&html, None, None, "3", "https://www.iherb.com", "USD");
    assert!(matches!(r, Err(IherbError::ProductNotFound(_))));
}

#[test]
fn price_specification_beats_flat_price() {
    // The dedicated current-versus-list sub-structure wins over the flat
    // price field when both are present.
    let html = "<html><head><script type=\"application/ld+json\">{\"@type\":\"Product\",\"name\":\"Both Prices\",\"offers\":{\"price\":\"99.99\",\"priceCurrency\":\"USD\",\"priceSpecification\":[\
        {\"price\":\"24.99\",\"priceCurrency\":\"USD\",\"priceType\":\"https://schema.org/StrikethroughPrice\"},\
        {\"price\":\"19.99\",\"priceCurrency\":\"USD\"}]}}</script></head><body></body></html>";
    let p = extract_product(html, None, None, "4", "https://www.iherb.com", "USD").unwrap();
    assert_eq!(p.price, 1999);
    assert_eq!(p.original_price, Some(2499));
}

#[test]
fn flat_price_serves_as_fallback() {
    let feed = "{\"price\":19.99,\"priceCurrency\":\"EUR\"}";
    let offers: serde_json::Value = serde_json::from_str(feed).unwrap();
    let (price, original, currency) =
        iherb_cli::product::extract_prices_from_offers(Some(&offers));
    assert_eq!(price, 1999);
    assert_eq!(original, None);
    assert_eq!(currency, "EUR");
}

#[test]
fn structural_list_price_reconciles_with_dom_discount() {
    // The structured block reports the list price as if it were current;
    // the page's hidden input carries the true discount.
    let html = "<html><head><script type=\"application/ld+json\">{\"@type\":\"Product\",\"name\":\"Reconciled\",\"offers\":{\"price\":\"24.99\",\"priceCurrency\":\"USD\"}}</script></head>\
        <body><input id=\"share-email-model\" data-list-price=\"24.99\" data-discount-price=\"19.99\"></body></html>";
    let p = extract_product(html, None, None, "9", "https://www.iherb.com", "USD").unwrap();
    assert_eq!(p.price, 1999);
    assert_eq!(p.original_price, Some(2499));
}

fn facts_page() -> &'static str {
    "<html><body><table class=\"supplement-facts-table\">\
     <tr><td>Serving Size: 1 Capsule</td></tr>\
     <tr><td>Servings Per Container: 100</td></tr>\
     <tr><th>Amount Per Serving</th><th>% Daily Value</th></tr>\
     <tr><td>Vitamin C</td><td>1,000 mg</td><td>1111%</td></tr>\
     <tr><td>Zinc</td><td>15 mg</td><td></td></tr>\
     <tr><td>† Daily Value not established.</td><td></td></tr>\
     </table></body></html>"
}

#[test]
fn supplement_facts_table_parses() {
    let f = parse_supplement_facts_html(facts_page()).unwrap();
    assert_eq!(f.serving_size.as_deref(), Some("1 Capsule"));
    assert_eq!(f.servings_per_container.as_deref(), Some("100"));
    assert_eq!(f.nutrients.len(), 2);
    assert_eq!(f.nutrients[0].name, "Vitamin C");
    assert_eq!(f.nutrients[0].amount, "1,000 mg");
    assert_eq!(f.nutrients[0].daily_value.as_deref(), Some("1111%"));
    assert_eq!(f.nutrients[1].name, "Zinc");
    assert_eq!(f.nutrients[1].daily_value, None);
}

#[test]
fn empty_facts_table_is_none() {
    let html = "<html><body><table class=\"supplement-facts-table\">\
        <tr><th>Supplement Facts</th><th></th></tr>\
        <tr><td>† footnote</td><td>x</td></tr>\
        </table></body></html>";
    assert!(parse_supplement_facts_html(html).is_none());
    assert!(parse_supplement_facts_html("<html><body></body></html>").is_none());
}

#[test]
fn facts_row_classification() {
    let meta = vec![String::from("Serving Size: 2 Tablets")];
    assert_eq!(classify_facts_row(&meta), FactsRowKind::ServingSize);
    let per = vec![String::from("Servings Per Container: 30")];
    assert_eq!(classify_facts_row(&per), FactsRowKind::ServingsPerContainer);
    let header = vec![String::from("Amount Per Serving"), String::from("%DV")];
    assert_eq!(classify_facts_row(&header), FactsRowKind::Header);
    let foot = vec![String::from("* Daily Value not established"), String::from("")];
    assert_eq!(classify_facts_row(&foot), FactsRowKind::Footnote);
    let nutrient = vec![String::from("Vitamin C"), String::from("90 mg")];
    assert_eq!(classify_facts_row(&nutrient), FactsRowKind::Nutrient);
    let empty: Vec<String> = Vec::new();
    assert_eq!(classify_facts_row(&empty), FactsRowKind::Empty);
}

#[test]
fn review_distribution_parses_bar_widths() {
    let html = "<html><body><ugc-review-progress-bar>\
        <button class=\"item\"><span>5 stars</span><div class=\"percent-wrap\"><span style=\"width: 84%;\"></span></div></button>\
        <button class=\"item\"><span>4 stars</span><div class=\"percent-wrap\"><span style=\"width: 10.5%;\"></span></div></button>\
        <button class=\"item\"><span>1 star</span><div class=\"percent-wrap\"><span style=\"width: 2%;\"></span></div></button>\
        </ugc-review-progress-bar></body></html>";
    let d = parse_review_distribution_html(html).unwrap();
    assert_eq!(d.five_star, Some(8400));
    assert_eq!(d.four_star, Some(1050));
    assert_eq!(d.three_star, None);
    assert_eq!(d.two_star, None);
    assert_eq!(d.one_star, Some(200));
}

#[test]
fn no_bars_is_no_distribution() {
    assert!(parse_review_distribution_html("<html><body></body></html>").is_none());
    let html = "<html><body><ugc-review-progress-bar></ugc-review-progress-bar></body></html>";
    assert!(parse_review_distribution_html(html).is_none());
}

#[test]
fn width_percent_parses_the_declaration() {
    assert_eq!(parse_width_percent("width: 84%;"), Some(8400));
    assert_eq!(parse_width_percent("height: 3px; width: 10.5%;"), Some(1050));
    assert_eq!(parse_width_percent("width: auto;"), None);
    assert_eq!(parse_width_percent(""), None);
}

#[test]
fn rating_title_reads_the_leading_decimal() {
    assert_eq!(parse_rating_title("4.8/5 - 42,328 Reviews"), Some(480));
    assert_eq!(parse_rating_title("5/5"), Some(500));
    assert_eq!(parse_rating_title("no rating"), None);
}

#[test]
fn spec_list_entries_resolve_by_label() {
    let html = "<html><body><ul id=\"product-specs-list\">\
        <li>Product Code: ACM-100</li>\
        <li>UPC: <span>897314002106</span></li>\
        <li>Shipping Weight: 0.42 kg</li>\
        </ul></body></html>";
    assert_eq!(extract_spec(html, "Product Code").as_deref(), Some("ACM-100"));
    assert_eq!(extract_spec(html, "UPC").as_deref(), Some("897314002106"));
    assert_eq!(extract_spec(html, "Shipping Weight").as_deref(), Some("0.42 kg"));
    assert_eq!(extract_spec(html, "Dimensions"), None);
}

#[test]
fn overview_sections_fill_free_text() {
    let html = "<html><body><h1 id=\"name\">Sectioned Product</h1>\
        <input id=\"share-email-model\" data-discount-price=\"9.99\">\
        <div id=\"product-overview\">\
        <h3>Suggested Use</h3><div>Take one capsule daily.</div>\
        <h3>Warnings</h3><div>Keep out of reach of children.</div>\
        <h3>Description</h3><div>A fine product.</div>\
        </div></body></html>";
    let p = extract_product(html, None, None, "3", "https://www.iherb.com", "USD").unwrap();
    assert_eq!(p.suggested_use.as_deref(), Some("Take one capsule daily."));
    assert_eq!(p.warnings.as_deref(), Some("Keep out of reach of children."));
    assert_eq!(p.description.as_deref(), Some("A fine product."));
}
