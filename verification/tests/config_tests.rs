use iherb_cli::browser::{downloaded_chrome_path, select_download_url, strip_top_dir};
use iherb_cli::cli::{
    parse_product_identifier, section_from_label, validate_section, Section, SortOrder,
};
use iherb_cli::config::{AppConfig, ConfigDefaults, EnvOverrides};
use iherb_cli::output::{format_cached_at, format_cents, format_number};

fn no_env() -> EnvOverrides {
    EnvOverrides { browser_path: None, country: None, currency: None }
}

fn no_file() -> ConfigDefaults {
    ConfigDefaults { country: None, currency: None, browser_path: None, delay_ms: None }
}

#[test]
fn defaults_apply() {
    let cfg = AppConfig::load(
        None,
        None,
        false,
        None,
        false,
        no_env(),
        no_file(),
        String::from("/tmp/cache"),
        String::from("/tmp/data"),
    )
    .unwrap();
    assert_eq!(cfg.country, "us");
    assert_eq!(cfg.currency, "USD");
    assert_eq!(cfg.delay_ms, 2000);
    assert!(!cfg.no_cache);
    assert_eq!(cfg.base_url(), "https://www.iherb.com");
}

#[test]
fn command_line_beats_environment_beats_file() {
    let env = EnvOverrides {
        browser_path: None,
        country: Some(String::from("de")),
        currency: Some(String::from("EUR")),
    };
    let file = ConfigDefaults {
        country: Some(String::from("fr")),
        currency: Some(String::from("GBP")),
        browser_path: Some(String::from("/opt/browser")),
        delay_ms: Some(500),
    };
    let cfg = AppConfig::load(
        Some(String::from("ch")),
        None,
        true,
        None,
        true,
        env,
        file,
        String::from("/c"),
        String::from("/d"),
    )
    .unwrap();
    assert_eq!(cfg.country, "ch");
    assert_eq!(cfg.currency, "EUR");
    assert_eq!(cfg.delay_ms, 500);
    assert_eq!(cfg.browser_path.as_deref(), Some("/opt/browser"));
    assert_eq!(cfg.base_url(), "https://ch.iherb.com");
}

#[test]
fn unknown_country_is_rejected() {
    let r = AppConfig::load(
        Some(String::from("zz")),
        None,
        false,
        None,
        false,
        no_env(),
        no_file(),
        String::new(),
        String::new(),
    );
    assert!(r.is_err());
    assert!(AppConfig::validate_country("us").is_ok());
    assert!(AppConfig::validate_country("ch").is_ok());
    assert!(AppConfig::validate_country("zz").is_err());
    assert!(AppConfig::validate_country("").is_err());
}

#[test]
fn sort_order_tokens() {
    assert_eq!(SortOrder::Relevance.as_url_param(), "");
    assert_eq!(SortOrder::PriceAsc.as_url_param(), "&sr=4");
    assert_eq!(SortOrder::PriceDesc.as_url_param(), "&sr=3");
    assert_eq!(SortOrder::Rating.as_url_param(), "&sr=1");
    assert_eq!(SortOrder::BestSelling.as_url_param(), "&sr=2");
    assert_eq!(SortOrder::Relevance.as_cache_key(), "relevance");
    assert_eq!(SortOrder::BestSelling.as_cache_key(), "best-selling");
}

#[test]
fn section_labels() {
    assert_eq!(Section::Overview.label(), "overview");
    assert_eq!(Section::SuggestedUse.label(), "suggested use");
    assert_eq!(Section::Reviews.label(), "review");
}

#[test]
fn section_validation() {
    assert!(validate_section("overview"));
    assert!(validate_section("ingredients"));
    assert!(validate_section("nutrition"));
    assert!(validate_section("reviews"));
    assert!(!validate_section("description"));
    assert!(!validate_section(""));
}

#[test]
fn section_labels_map_to_sections() {
    assert_eq!(section_from_label("overview"), Some(Section::Overview));
    assert_eq!(section_from_label("ingredients"), Some(Section::Ingredients));
    assert_eq!(section_from_label("nutrition"), Some(Section::Nutrition));
    assert_eq!(section_from_label("reviews"), Some(Section::Reviews));
    assert_eq!(section_from_label("warnings"), None);
    assert_eq!(section_from_label(""), None);
}

#[test]
fn product_identifier_forms() {
    assert_eq!(parse_product_identifier("12345"), Some(String::from("12345")));
    assert_eq!(
        parse_product_identifier("https://www.iherb.com/pr/some-product/67890"),
        Some(String::from("67890"))
    );
    assert_eq!(parse_product_identifier("not a product"), None);
    assert_eq!(parse_product_identifier("https://example.com/55"), None);
    assert_eq!(parse_product_identifier(""), None);
}

#[test]
fn numbers_group_in_threes() {
    assert_eq!(format_number(0), "0");
    assert_eq!(format_number(999), "999");
    assert_eq!(format_number(1000), "1,000");
    assert_eq!(format_number(42328), "42,328");
    assert_eq!(format_number(1234567), "1,234,567");
}

#[test]
fn cents_render_with_two_decimals() {
    assert_eq!(format_cents(1999), "19.99");
    assert_eq!(format_cents(100000), "1000.00");
    assert_eq!(format_cents(5), "0.05");
    assert_eq!(format_cents(0), "0.00");
}

#[test]
fn cached_at_renders_utc() {
    assert_eq!(format_cached_at(0), "1970-01-01 00:00 UTC");
    assert_eq!(format_cached_at(1700000000), "2023-11-14 22:13 UTC");
    // A leap day.
    assert_eq!(format_cached_at(1709164800), "2024-02-29 00:00 UTC");
}

#[test]
fn chrome_paths_by_platform() {
    assert_eq!(downloaded_chrome_path("/data", "linux"), "/data/chrome/chrome");
    assert_eq!(downloaded_chrome_path("/data", "windows"), "/data/chrome/chrome.exe");
    assert_eq!(
        downloaded_chrome_path("/data", "macos"),
        "/data/chrome/Google Chrome for Testing.app/Contents/MacOS/Google Chrome for Testing"
    );
}

#[test]
fn download_url_selection() {
    let feed = "{\"channels\":{\"Stable\":{\"downloads\":{\"chrome\":[\
        {\"platform\":\"linux64\",\"url\":\"https://example.invalid/linux.zip\"},\
        {\"platform\":\"mac-arm64\",\"url\":\"https://example.invalid/mac.zip\"}]}}}}";
    assert_eq!(
        select_download_url(feed, "linux64").as_deref(),
        Some("https://example.invalid/linux.zip")
    );
    assert_eq!(select_download_url(feed, "win64"), None);
    assert_eq!(select_download_url("not json", "linux64"), None);
}

#[test]
fn archive_names_lose_their_top_directory() {
    assert_eq!(
        strip_top_dir("chrome-linux64/chrome").as_deref(),
        Some("chrome")
    );
    assert_eq!(strip_top_dir("chrome-linux64/").as_deref(), Some(""));
    assert_eq!(strip_top_dir("plain"), None);
}
