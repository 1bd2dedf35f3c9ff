//! Canonical records produced by the extraction pipeline.
//!
//! Money is held as non-negative integer cents (hundredths of the currency
//! unit), ratings as hundredths of a star (0..=500), and review-distribution
//! shares as hundredths of a percent, so that every numeric field is exact.

use vstd::prelude::*;

verus! {

/// One row of a search result. Immutable once constructed.
#[derive(Debug, Clone, PartialEq, Eq)]
pub struct ProductSummary {
    pub name: String,
    pub brand: String,
    /// Current price in cents.
    pub price: u64,
    /// Pre-discount price in cents; present only when strictly above `price`.
    pub original_price: Option<u64>,
    pub currency: String,
    /// Hundredths of a star; meaningful only together with `review_count`.
    pub rating: Option<u32>,
    pub review_count: Option<u32>,
    pub product_url: String,
    pub product_id: String,
    pub in_stock: bool,
}

/// A non-discounting "original" price must never be surfaced.
pub open spec fn summary_wf(p: ProductSummary) -> bool {
    p.original_price matches Some(op) ==> op > p.price
}

#[derive(Debug, Clone, PartialEq, Eq)]
pub struct Nutrient {
    pub name: String,
    pub amount: String,
    pub daily_value: Option<String>,
}

#[derive(Debug, Clone, PartialEq, Eq)]
pub struct SupplementFacts {
    pub serving_size: Option<String>,
    pub servings_per_container: Option<String>,
    pub nutrients: Vec<Nutrient>,
}

/// Every nutrient carries a non-empty name.
pub open spec fn facts_wf(f: SupplementFacts) -> bool {
    forall|i: int| 0 <= i < f.nutrients@.len() ==> (#[trigger] f.nutrients@[i]).name@.len() > 0
}

/// Percentage share of each star rating, in hundredths of a percent.
#[derive(Debug, Clone, PartialEq, Eq)]
pub struct ReviewDistribution {
    pub five_star: Option<u32>,
    pub four_star: Option<u32>,
    pub three_star: Option<u32>,
    pub two_star: Option<u32>,
    pub one_star: Option<u32>,
}

/// Full product record. Immutable once the enrichment pass has run.
#[derive(Debug, Clone, PartialEq, Eq)]
pub struct ProductDetail {
    pub name: String,
    pub brand: String,
    /// Current price in cents.
    pub price: u64,
    /// Pre-discount price in cents; present only when strictly above `price`.
    pub original_price: Option<u64>,
    pub currency: String,
    /// Hundredths of a star; meaningful only together with `review_count`.
    pub rating: Option<u32>,
    pub review_count: Option<u32>,
    pub product_url: String,
    pub product_id: String,
    pub in_stock: bool,
    pub description: Option<String>,
    pub product_code: Option<String>,
    pub upc: Option<String>,
    pub ingredients: Option<String>,
    pub supplement_facts: Option<SupplementFacts>,
    pub suggested_use: Option<String>,
    pub warnings: Option<String>,
    pub shipping_weight: Option<String>,
    pub category_breadcrumb: Option<Vec<String>>,
    pub review_distribution: Option<ReviewDistribution>,
}

pub open spec fn detail_wf(p: ProductDetail) -> bool {
    &&& (p.original_price matches Some(op) ==> op > p.price)
    &&& (p.supplement_facts matches Some(f) ==> facts_wf(f))
}

/// An ordered list of summaries for one query; order is the site's relevance
/// order, never re-sorted here.
#[derive(Debug, Clone, PartialEq, Eq)]
pub struct SearchResult {
    pub query: String,
    pub total_results: Option<u32>,
    pub products: Vec<ProductSummary>,
}

pub open spec fn search_result_wf(r: SearchResult) -> bool {
    forall|i: int| 0 <= i < r.products@.len() ==> summary_wf(#[trigger] r.products@[i])
}

} // verus!
