//! Command model: what an invocation asks for, independent of how the
//! arguments were read. The application crate parses real command-line
//! arguments into these types.

use vstd::prelude::*;

use crate::search::extract_id_from_url;
use crate::text::{
    all_digits, chars_of, eq_chars, is_all_digits, last_digit_piece, spec_contains, spec_split,
    str_contains, str_eq, string_of,
};

verus! {

#[derive(Debug, Clone, Copy, PartialEq, Eq, Structural)]
pub enum SortOrder {
    Relevance,
    PriceAsc,
    PriceDesc,
    Rating,
    BestSelling,
}

pub open spec fn spec_sort_url_param(s: SortOrder) -> Seq<char> {
    match s {
        SortOrder::Relevance => ""@,
        SortOrder::PriceAsc => "&sr=4"@,
        SortOrder::PriceDesc => "&sr=3"@,
        SortOrder::Rating => "&sr=1"@,
        SortOrder::BestSelling => "&sr=2"@,
    }
}

pub open spec fn spec_sort_cache_key(s: SortOrder) -> Seq<char> {
    match s {
        SortOrder::Relevance => "relevance"@,
        SortOrder::PriceAsc => "price-asc"@,
        SortOrder::PriceDesc => "price-desc"@,
        SortOrder::Rating => "rating"@,
        SortOrder::BestSelling => "best-selling"@,
    }
}

impl SortOrder {
    /// The query-string fragment selecting this order on the site.
    pub fn as_url_param(self) -> (r: &'static str)
        ensures
            r@ == spec_sort_url_param(self),
    {
        match self {
            SortOrder::Relevance => "",
            SortOrder::PriceAsc => "&sr=4",
            SortOrder::PriceDesc => "&sr=3",
            SortOrder::Rating => "&sr=1",
            SortOrder::BestSelling => "&sr=2",
        }
    }

    /// The token naming this order inside a search cache key.
    pub fn as_cache_key(self) -> (r: &'static str)
        ensures
            r@ == spec_sort_cache_key(self),
    {
        match self {
            SortOrder::Relevance => "relevance",
            SortOrder::PriceAsc => "price-asc",
            SortOrder::PriceDesc => "price-desc",
            SortOrder::Rating => "rating",
            SortOrder::BestSelling => "best-selling",
        }
    }
}

#[derive(Debug, Clone, Copy, PartialEq, Eq, Structural)]
pub enum Section {
    Overview,
    Description,
    Nutrition,
    Ingredients,
    SuggestedUse,
    Warnings,
    Reviews,
}

pub open spec fn spec_section_label(s: Section) -> Seq<char> {
    match s {
        Section::Overview => "overview"@,
        Section::Description => "description"@,
        Section::Nutrition => "nutrition"@,
        Section::Ingredients => "ingredients"@,
        Section::SuggestedUse => "suggested use"@,
        Section::Warnings => "warnings"@,
        Section::Reviews => "review"@,
    }
}

impl Section {
    /// The lower-case label under which the section is rendered.
    pub fn label(&self) -> (r: &'static str)
        ensures
            r@ == spec_section_label(*self),
    {
        match self {
            Section::Overview => "overview",
            Section::Description => "description",
            Section::Nutrition => "nutrition",
            Section::Ingredients => "ingredients",
            Section::SuggestedUse => "suggested use",
            Section::Warnings => "warnings",
            Section::Reviews => "review",
        }
    }
}

/// The subcommand of one invocation.
#[derive(Debug, Clone, PartialEq, Eq)]
pub enum Commands {
    Search { query: String, limit: usize, sort: SortOrder, category: Option<String> },
    Product { id_or_url: String, section: Option<Section> },
}

/// One parsed invocation: a subcommand plus the global options.
#[derive(Debug, Clone, PartialEq, Eq)]
pub struct Cli {
    pub command: Commands,
    pub country: Option<String>,
    pub currency: Option<String>,
    pub no_cache: bool,
    pub delay: Option<u64>,
    pub debug: bool,
}

/// The product identifier named by a command-line target: a wholly numeric
/// input verbatim; else, for a product URL of the site, the last numeric
/// path segment; nothing otherwise.
pub open spec fn spec_product_identifier(input: Seq<char>) -> Option<Seq<char>> {
    if all_digits(input) {
        Some(input)
    } else if spec_contains(input, "iherb.com"@) {
        last_digit_piece(spec_split(input, '/'))
    } else {
        None
    }
}

/// Parse a numeric product id or a full product URL into the identifier.
pub fn parse_product_identifier(input: &str) -> (r: Option<String>)
    ensures
        match spec_product_identifier(input@) {
            Option::Some(id) => r matches Some(s) && s@ == id,
            Option::None => r is None,
        },
{
    let cs = chars_of(input);
    if is_all_digits(cs.as_slice()) {
        return Some(string_of(cs.as_slice()));
    }
    if str_contains(input, "iherb.com") {
        return extract_id_from_url(input);
    }
    None
}

/// The section names accepted on the command line.
pub open spec fn is_valid_section(s: Seq<char>) -> bool {
    ||| s == "overview"@
    ||| s == "ingredients"@
    ||| s == "nutrition"@
    ||| s == "reviews"@
}

/// Whether `section` names a section that may be requested alone.
pub fn validate_section(section: &str) -> (ok: bool)
    ensures
        ok == is_valid_section(section@),
{
    let cs = chars_of(section);
    let s = cs.as_slice();
    let a = chars_of("overview");
    let b = chars_of("ingredients");
    let c = chars_of("nutrition");
    let d = chars_of("reviews");
    eq_chars(s, a.as_slice()) || eq_chars(s, b.as_slice()) || eq_chars(s, c.as_slice())
        || eq_chars(s, d.as_slice())
}

/// The section a command-line label names, for the labels accepted alone.
pub open spec fn spec_section_of_label(s: Seq<char>) -> Option<Section> {
    if s == "overview"@ {
        Some(Section::Overview)
    } else if s == "ingredients"@ {
        Some(Section::Ingredients)
    } else if s == "nutrition"@ {
        Some(Section::Nutrition)
    } else if s == "reviews"@ {
        Some(Section::Reviews)
    } else {
        None
    }
}

/// Map a command-line section label to its section.
pub fn section_from_label(section: &str) -> (r: Option<Section>)
    ensures
        r == spec_section_of_label(section@),
        r is Some <==> is_valid_section(section@),
{
    if str_eq(section, "overview") {
        Some(Section::Overview)
    } else if str_eq(section, "ingredients") {
        Some(Section::Ingredients)
    } else if str_eq(section, "nutrition") {
        Some(Section::Nutrition)
    } else if str_eq(section, "reviews") {
        Some(Section::Reviews)
    } else {
        None
    }
}

} // verus!
