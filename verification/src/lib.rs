//! Core logic of a command-line client for one e-commerce site: locale-aware
//! price normalization, a time-bounded artifact cache, a browser-navigation
//! state machine that waits out anti-bot interstitials, and a cascading
//! extraction pipeline that turns fetched pages into canonical records.
//!
//! Everything that decides or computes lives here, verified. Calls into
//! outside crates (HTML queries, JSON field access, hashing) stand behind
//! small trusted wrappers; all I/O and the browser itself are driven by the
//! accompanying application crate, which performs the actions the
//! navigation machine requests and hands page payloads to the extraction
//! pipeline as plain values.

pub mod browser;
pub mod cache;
pub mod cli;
pub mod config;
pub mod dom;
pub mod error;
pub mod helpers;
pub mod jsonval;
pub mod model;
pub mod navigation;
pub mod output;
pub mod price;
pub mod product;
pub mod search;
pub mod text;

pub use cache::Cache;
pub use cli::{Cli, Commands, Section, SortOrder};
pub use config::AppConfig;
pub use error::IherbError;
pub use model::{
    Nutrient, ProductDetail, ProductSummary, ReviewDistribution, SearchResult, SupplementFacts,
};
pub use navigation::Navigator;
pub use price::parse_price_str;
pub use product::extract_product;
pub use search::{extract_search, pages_needed};
