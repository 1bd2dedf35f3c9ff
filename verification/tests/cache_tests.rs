use iherb_cli::cache::{
    is_fresh, to_hex_lower, ttl_secs, Cache, CacheKind, PRODUCT_TTL_SECS, SEARCH_TTL_SECS,
};
use iherb_cli::cli::SortOrder;
use sha2::Digest;

#[test]
fn ttls_match_the_windows() {
    assert_eq!(ttl_secs(CacheKind::Search), 3600);
    assert_eq!(ttl_secs(CacheKind::Product), 86400);
    assert_eq!(SEARCH_TTL_SECS, 3600);
    assert_eq!(PRODUCT_TTL_SECS, 86400);
}

#[test]
fn search_artifact_fresh_before_one_hour() {
    assert!(is_fresh(CacheKind::Search, 0));
    assert!(is_fresh(CacheKind::Search, 3599));
}

#[test]
fn search_artifact_stale_at_and_after_one_hour() {
    assert!(!is_fresh(CacheKind::Search, 3600));
    assert!(!is_fresh(CacheKind::Search, 3601));
}

#[test]
fn product_artifact_follows_the_day_window() {
    assert!(is_fresh(CacheKind::Product, 86399));
    assert!(!is_fresh(CacheKind::Product, 86400));
    assert!(!is_fresh(CacheKind::Product, 86401));
}

#[test]
fn bypass_mode_disables_reads_only() {
    let c = Cache::new(String::from("/tmp/cache"), true);
    assert!(!c.read_enabled());
    let c2 = Cache::new(String::from("/tmp/cache"), false);
    assert!(c2.read_enabled());
}

#[test]
fn cache_file_names() {
    assert_eq!(Cache::product_cache_file("12345"), "product_12345.json");
    let key = String::from("aabbccdd00112233");
    assert_eq!(Cache::search_cache_file(&key), "search_aabbccdd00112233.json");
}

#[test]
fn search_key_is_sixteen_hex_chars() {
    let k = Cache::search_key("vitamin c", SortOrder::Relevance, None);
    assert_eq!(k.len(), 16);
    assert!(k.chars().all(|c| c.is_ascii_hexdigit()));
}

#[test]
fn search_key_matches_reference_digest() {
    // The key must be the first eight digest bytes of
    // query ++ sort-token ++ category, in lower-case hex.
    let mut hasher = sha2::Sha256::new();
    hasher.update("vitamin c".as_bytes());
    hasher.update("price-asc".as_bytes());
    hasher.update("supplements".as_bytes());
    let reference = hex::encode(&hasher.finalize()[..8]);
    let k = Cache::search_key("vitamin c", SortOrder::PriceAsc, Some("supplements"));
    assert_eq!(k, reference);
}

#[test]
fn search_key_depends_on_sort_and_category() {
    let a = Cache::search_key("omega 3", SortOrder::Relevance, None);
    let b = Cache::search_key("omega 3", SortOrder::Rating, None);
    let c = Cache::search_key("omega 3", SortOrder::Relevance, Some("fish-oil"));
    assert_ne!(a, b);
    assert_ne!(a, c);
}

#[test]
fn hex_encoding_matches_reference() {
    let bytes: Vec<u8> = vec![0x00, 0x0f, 0x10, 0xab, 0xff];
    assert_eq!(to_hex_lower(&bytes), hex::encode(&bytes));
}
