//! Product-detail extraction: the strategy cascade over the embedded
//! structured-data block, in-page script globals and the framework page-data
//! blob, the DOM enrichment pass, and the DOM-only parsers for supplement
//! facts, review distribution, specification entries and free-text sections.

use vstd::prelude::*;
use vstd::string::StrSliceExecFns;
use vstd::string::StringExecFns;

use crate::dom::{
    query_all_attrs, query_all_html, query_first_attr, query_heading_siblings,
};
use crate::error::IherbError;
use crate::helpers::{
    detect_currency_from_html, extract_text, is_not_found_page, parse_review_count,
};
use crate::jsonval::{
    extract_json_ld, json_bool, json_get, json_get_or, json_index, json_array_len,
    json_numeric_text, json_parse, json_str, json_str_field, json_u64,
};
use crate::model::{
    detail_wf, facts_wf, Nutrient, ProductDetail, ReviewDistribution, SupplementFacts,
};
use crate::price::{parse_decimal_hundredths, parse_price_chars};
use crate::text::{
    chars_of, contains_chars, find_char, is_digit_char, lower_chars, spec_contains, spec_lower,
    spec_trim, split_chars, starts_with_chars, str_contains, str_eq, string_of, trim_chars,
};

verus! {

/// How one supplement-facts table row is read.
#[derive(Debug, Clone, Copy, PartialEq, Eq, Structural)]
pub enum FactsRowKind {
    /// One non-empty cell naming the serving size.
    ServingSize,
    /// One non-empty cell naming the servings per container.
    ServingsPerContainer,
    /// One cell carrying neither; ignored.
    OtherMeta,
    /// A known header phrase or an empty first cell; skipped.
    Header,
    /// A footnote row (leading dagger or asterisk); skipped.
    Footnote,
    /// A nutrient row: name, amount, optional daily value.
    Nutrient,
    /// No cells at all; skipped.
    Empty,
}

/// The classification rule for one row, over its trimmed cell texts.
pub open spec fn spec_facts_row_kind(cells: Seq<Seq<char>>) -> FactsRowKind {
    if cells.len() == 0 {
        FactsRowKind::Empty
    } else if cells.len() == 1 {
        if spec_contains(spec_lower(cells[0]), "serving size"@) {
            FactsRowKind::ServingSize
        } else if spec_contains(spec_lower(cells[0]), "servings per"@) {
            FactsRowKind::ServingsPerContainer
        } else {
            FactsRowKind::OtherMeta
        }
    } else {
        let first = spec_lower(cells[0]);
        if spec_contains(first, "amount per"@) || spec_contains(first, "% daily"@)
            || spec_contains(first, "supplement"@) || cells[0].len() == 0 {
            FactsRowKind::Header
        } else if cells[0][0] == '†' || cells[0][0] == '*' {
            FactsRowKind::Footnote
        } else {
            FactsRowKind::Nutrient
        }
    }
}

/// Classify one table row by its (already trimmed) cell texts: rows with
/// exactly one cell are meta rows; rows with two or more cells are nutrient
/// rows unless the first cell is a known header phrase or a footnote marker.
pub fn classify_facts_row(cells: &Vec<String>) -> (r: FactsRowKind)
    ensures
        r == spec_facts_row_kind(cells.deep_view()),
{
    proof {
        assert(cells.deep_view().len() == cells@.len());
    }
    if cells.len() == 0 {
        return FactsRowKind::Empty;
    }
    let c0 = chars_of(cells[0].as_str());
    proof {
        assert(cells.deep_view()[0] == cells@[0]@);
    }
    if cells.len() == 1 {
        let lower = lower_chars(c0.as_slice());
        let ss = chars_of("serving size");
        let sp = chars_of("servings per");
        if contains_chars(lower.as_slice(), ss.as_slice()) {
            FactsRowKind::ServingSize
        } else if contains_chars(lower.as_slice(), sp.as_slice()) {
            FactsRowKind::ServingsPerContainer
        } else {
            FactsRowKind::OtherMeta
        }
    } else {
        let lower = lower_chars(c0.as_slice());
        let h1 = chars_of("amount per");
        let h2 = chars_of("% daily");
        let h3 = chars_of("supplement");
        if contains_chars(lower.as_slice(), h1.as_slice()) || contains_chars(
            lower.as_slice(),
            h2.as_slice(),
        ) || contains_chars(lower.as_slice(), h3.as_slice()) || c0.len() == 0 {
            FactsRowKind::Header
        } else if c0[0] == '†' || c0[0] == '*' {
            FactsRowKind::Footnote
        } else {
            FactsRowKind::Nutrient
        }
    }
}

/// The text after the first colon, trimmed; `None` without a colon.
pub open spec fn spec_after_colon(s: Seq<char>) -> Option<Seq<char>> {
    if crate::text::first_idx(s, ':') >= 0 {
        Some(spec_trim(s.skip(crate::text::first_idx(s, ':') + 1)))
    } else {
        None
    }
}

/// The value part of a "label: value" cell.
pub fn after_colon(s: &[char]) -> (r: Option<String>)
    ensures
        match spec_after_colon(s@) {
            Option::Some(t) => r matches Some(v) && v@ == t,
            Option::None => r is None,
        },
{
    match find_char(s, ':') {
        Some(i) => {
            proof {
                crate::text::lemma_first_idx_bounds(s@, ':');
            }
            let n = s.len();
            let mut rest: Vec<char> = Vec::new();
            let mut j: usize = i + 1;
            while j < n
                invariant
                    i + 1 <= j <= n,
                    n == s@.len(),
                    rest@ == s@.subrange(i + 1, j as int),
                decreases n - j,
            {
                rest.push(s[j]);
                j = j + 1;
                proof {
                    assert(rest@ =~= s@.subrange(i + 1, j as int));
                }
            }
            proof {
                assert(rest@ =~= s@.skip(i + 1));
            }
            let t = trim_chars(rest.as_slice());
            Some(string_of(t.as_slice()))
        },
        None => None,
    }
}

/// The nutrient read from one nutrient row: name, amount (empty when the
/// row has one cell), and the third cell as daily value when non-empty.
pub open spec fn spec_nutrient_of(cells: Seq<Seq<char>>) -> (Seq<char>, Seq<char>, Option<
    Seq<char>,
>) {
    (
        cells[0],
        if cells.len() >= 2 {
            cells[1]
        } else {
            Seq::empty()
        },
        if cells.len() >= 3 && cells[2].len() > 0 {
            Some(cells[2])
        } else {
            None
        },
    )
}

/// The fold over the first `i` table rows: serving size, servings per
/// container (each from the latest matching meta row, absent without a
/// colon), and the nutrient rows in order.
pub open spec fn spec_facts_fold(rows: Seq<Seq<Seq<char>>>, i: int) -> (
    Option<Seq<char>>,
    Option<Seq<char>>,
    Seq<(Seq<char>, Seq<char>, Option<Seq<char>>)>,
)
    decreases i,
{
    if i <= 0 {
        (None, None, Seq::empty())
    } else {
        let prev = spec_facts_fold(rows, i - 1);
        let cells = rows[i - 1];
        match spec_facts_row_kind(cells) {
            FactsRowKind::ServingSize => (spec_after_colon(cells[0]), prev.1, prev.2),
            FactsRowKind::ServingsPerContainer => (prev.0, spec_after_colon(cells[0]), prev.2),
            FactsRowKind::Nutrient => (prev.0, prev.1, prev.2.push(spec_nutrient_of(cells))),
            _ => prev,
        }
    }
}

pub open spec fn opt_str_view(o: Option<String>) -> Option<Seq<char>> {
    match o {
        Option::Some(s) => Some(s@),
        Option::None => None,
    }
}

/// The result matches the fold of the given rows field by field.
pub open spec fn facts_match_fold(
    f: SupplementFacts,
    fold: (Option<Seq<char>>, Option<Seq<char>>, Seq<(Seq<char>, Seq<char>, Option<Seq<char>>)>),
) -> bool {
    &&& opt_str_view(f.serving_size) == fold.0
    &&& opt_str_view(f.servings_per_container) == fold.1
    &&& f.nutrients@.len() == fold.2.len()
    &&& forall|j: int|
        0 <= j < fold.2.len() ==> {
            let nu = #[trigger] f.nutrients@[j];
            nu.name@ == fold.2[j].0 && nu.amount@ == fold.2[j].1 && opt_str_view(nu.daily_value)
                == fold.2[j].2
        }
}

/// Fold the rows of a supplement-facts table into the record: meta rows set
/// the serving fields, nutrient rows append, header and footnote rows are
/// skipped. A table yielding no nutrient and no serving size is no
/// supplement facts at all.
pub fn parse_supplement_rows(rows: &Vec<Vec<String>>) -> (r: Option<SupplementFacts>)
    ensures
        ({
            let fold = spec_facts_fold(rows.deep_view(), rows.deep_view().len() as int);
            match r {
                Option::Some(f) => {
                    &&& facts_match_fold(f, fold)
                    &&& facts_wf(f)
                    &&& (fold.2.len() > 0 || fold.0 is Some)
                },
                Option::None => fold.2.len() == 0 && fold.0 is None,
            }
        }),
{
    let mut nutrients: Vec<Nutrient> = Vec::new();
    let mut serving_size: Option<String> = None;
    let mut servings_per_container: Option<String> = None;
    let n = rows.len();
    let ghost rv = rows.deep_view();
    proof {
        assert(rv.len() == rows@.len());
    }
    let mut i: usize = 0;
    while i < n
        invariant
            n == rows@.len(),
            rv == rows.deep_view(),
            rv.len() == n,
            i <= n,
            opt_str_view(serving_size) == spec_facts_fold(rv, i as int).0,
            opt_str_view(servings_per_container) == spec_facts_fold(rv, i as int).1,
            nutrients@.len() == spec_facts_fold(rv, i as int).2.len(),
            forall|j: int|
                0 <= j < nutrients@.len() ==> {
                    let nu = #[trigger] nutrients@[j];
                    nu.name@ == spec_facts_fold(rv, i as int).2[j].0 && nu.amount@
                        == spec_facts_fold(rv, i as int).2[j].1 && opt_str_view(nu.daily_value)
                        == spec_facts_fold(rv, i as int).2[j].2
                },
            forall|k: int|
                0 <= k < nutrients@.len() ==> (#[trigger] nutrients@[k]).name@.len() > 0,
        decreases n - i,
    {
        let cells = &rows[i];
        proof {
            assert(cells.deep_view() == rv[i as int]);
        }
        match classify_facts_row(cells) {
            FactsRowKind::ServingSize => {
                proof {
                    assert(cells.deep_view()[0] == cells@[0]@);
                }
                let c0 = chars_of(cells[0].as_str());
                serving_size = after_colon(c0.as_slice());
            },
            FactsRowKind::ServingsPerContainer => {
                proof {
                    assert(cells.deep_view()[0] == cells@[0]@);
                }
                let c0 = chars_of(cells[0].as_str());
                servings_per_container = after_colon(c0.as_slice());
            },
            FactsRowKind::Nutrient => {
                proof {
                    assert(cells.deep_view()[0] == cells@[0]@);
                    assert(cells.deep_view().len() >= 2 ==> cells.deep_view()[1] == cells@[1]@);
                    assert(cells.deep_view().len() >= 3 ==> cells.deep_view()[2] == cells@[2]@);
                }
                let name = cells[0].clone();
                let amount = if cells.len() >= 2 {
                    cells[1].clone()
                } else {
                    String::new()
                };
                let daily_value = if cells.len() >= 3 {
                    let d = cells[2].clone();
                    if d.as_str().unicode_len() > 0 {
                        Some(d)
                    } else {
                        None
                    }
                } else {
                    None
                };
                proof {
                    assert(name@ == cells.deep_view()[0]);
                    assert(name@.len() > 0);
                }
                nutrients.push(Nutrient { name, amount, daily_value });
            },
            _ => {},
        }
        i = i + 1;
    }
    if nutrients.len() == 0 && matches!(serving_size, None) {
        return None;
    }
    let f = SupplementFacts { serving_size, servings_per_container, nutrients };
    Some(f)
}

/// Parse the supplement-facts table of a product page: single-cell rows
/// carry serving metadata, multi-cell rows carry nutrients unless they are
/// header or footnote rows.
pub fn parse_supplement_facts_html(html: &str) -> (r: Option<SupplementFacts>)
    ensures
        r matches Some(f) ==> facts_wf(f),
        r matches Some(f) ==> (f.nutrients@.len() > 0 || f.serving_size is Some),
{
    let raw_rows = match crate::dom::query_table_cells(
        html,
        ".supplement-facts-container table, table.supplement-facts-table",
    ) {
        Some(r) => r,
        None => {
            return None;
        },
    };
    let mut rows: Vec<Vec<String>> = Vec::new();
    let n = raw_rows.len();
    let mut i: usize = 0;
    while i < n
        invariant
            n == raw_rows@.len(),
        decreases n - i,
    {
        let raw_cells = &raw_rows[i];
        let mut cells: Vec<String> = Vec::new();
        let m = raw_cells.len();
        let mut j: usize = 0;
        while j < m
            invariant
                m == raw_cells@.len(),
            decreases m - j,
        {
            let cc = chars_of(raw_cells[j].as_str());
            let t = trim_chars(cc.as_slice());
            cells.push(string_of(t.as_slice()));
            j = j + 1;
        }
        rows.push(cells);
        i = i + 1;
    }
    parse_supplement_rows(&rows)
}

/// Hundredths of a percent named by one style property ("width: 84%"):
/// the trimmed piece must start with "width", carry a colon, and its value
/// must be a plain decimal ending in a percent sign that fits a `u32`.
pub open spec fn spec_piece_width(piece: Seq<char>) -> Option<int> {
    let t = spec_trim(piece);
    if !crate::text::spec_starts_with(t, "width"@) {
        None
    } else {
        let parts = crate::text::spec_split(piece, ':');
        if parts.len() < 2 {
            None
        } else {
            let v = spec_trim(parts[1]);
            if v.len() > 0 && v.last() == '%' {
                match crate::price::spec_decimal_value(spec_trim(v.take(v.len() - 1))) {
                    Option::Some(h) => if h <= u32::MAX {
                        Some(h)
                    } else {
                        None
                    },
                    Option::None => None,
                }
            } else {
                None
            }
        }
    }
}

/// The value of the first style piece, from `i` on, that yields a width.
pub open spec fn spec_width_from(pieces: Seq<Seq<char>>, i: int) -> Option<int>
    decreases pieces.len() - i,
{
    if i < 0 || i >= pieces.len() {
        None
    } else {
        match spec_piece_width(pieces[i]) {
            Option::Some(v) => Some(v),
            Option::None => spec_width_from(pieces, i + 1),
        }
    }
}

/// The numerator of a CSS width declaration such as "width: 84%;", in
/// hundredths of a percent (8400), read from the first `width` property
/// whose value is a plain decimal with a percent sign.
pub fn parse_width_percent(style: &str) -> (r: Option<u32>)
    ensures
        match spec_width_from(crate::text::spec_split(style@, ';'), 0) {
            Option::Some(v) => r == Some(v as u32),
            Option::None => r is None,
        },
{
    let sc = chars_of(style);
    let pieces = split_chars(sc.as_slice(), ';');
    let ghost ps = crate::text::spec_split(style@, ';');
    let n = pieces.len();
    let mut i: usize = 0;
    let width_lit = chars_of("width");
    while i < n
        invariant
            ps == crate::text::spec_split(style@, ';'),
            n == pieces@.len() == ps.len(),
            forall|j: int| 0 <= j < n ==> (#[trigger] pieces@[j])@ == ps[j],
            width_lit@ == "width"@,
            i <= n,
            spec_width_from(ps, 0) == spec_width_from(ps, i as int),
        decreases n - i,
    {
        let t = trim_chars(pieces[i].as_slice());
        if starts_with_chars(t.as_slice(), width_lit.as_slice()) {
            let parts = split_chars(pieces[i].as_slice(), ':');
            let ghost qs = crate::text::spec_split(ps[i as int], ':');
            if parts.len() >= 2 {
                let v = trim_chars(parts[1].as_slice());
                proof {
                    assert(parts@[1]@ == qs[1]);
                }
                if v.len() > 0 && v[v.len() - 1] == '%' {
                    let mut inner: Vec<char> = Vec::new();
                    let m = v.len() - 1;
                    let mut j: usize = 0;
                    while j < m
                        invariant
                            m < v@.len(),
                            j <= m,
                            inner@ == v@.take(j as int),
                        decreases m - j,
                    {
                        inner.push(v[j]);
                        j = j + 1;
                        proof {
                            assert(inner@ =~= v@.take(j as int));
                        }
                    }
                    let tv = trim_chars(inner.as_slice());
                    if let Some(h) = parse_decimal_hundredths(tv.as_slice()) {
                        proof {
                            crate::price::lemma_decimal_value_nonneg(tv@);
                        }
                        if h <= 0xffff_ffffu64 {
                            proof {
                                assert(spec_piece_width(ps[i as int]) == Some(h as int));
                            }
                            return Some(h as u32);
                        }
                    }
                }
            }
        }
        proof {
            assert(spec_piece_width(ps[i as int]) is None);
        }
        i = i + 1;
    }
    None
}

/// The whitespace tokens of `s` from position `i` on, with `cur` the run
/// collected so far: the non-empty maximal runs of non-whitespace
/// characters, in order.
pub open spec fn spec_tokens_acc(s: Seq<char>, i: int, cur: Seq<char>) -> Seq<Seq<char>>
    decreases s.len() - i,
{
    if i < 0 || i >= s.len() {
        if cur.len() > 0 {
            seq![cur]
        } else {
            Seq::empty()
        }
    } else if crate::text::is_space_char(s[i]) {
        if cur.len() > 0 {
            seq![cur] + spec_tokens_acc(s, i + 1, Seq::empty())
        } else {
            spec_tokens_acc(s, i + 1, Seq::empty())
        }
    } else {
        spec_tokens_acc(s, i + 1, cur.push(s[i]))
    }
}

pub open spec fn spec_ws_tokens(s: Seq<char>) -> Seq<Seq<char>> {
    spec_tokens_acc(s, 0, Seq::empty())
}

/// The star level named by the first token pair whose second token starts
/// with "star": the first token read as digits, accepted only at 1..=5.
pub open spec fn spec_star_from(tokens: Seq<Seq<char>>, i: int) -> Option<int>
    decreases tokens.len() - i,
{
    if i < 0 || i + 1 >= tokens.len() {
        None
    } else if crate::text::spec_starts_with(tokens[i + 1], "star"@) {
        if crate::text::all_digits(tokens[i]) && 1 <= crate::text::digits_value(tokens[i]) <= 5 {
            Some(crate::text::digits_value(tokens[i]))
        } else {
            None
        }
    } else {
        spec_star_from(tokens, i + 1)
    }
}

/// The star level (1..=5) named by a per-star row label such as "5 stars":
/// the first whitespace token that is followed by a token starting with
/// "star", read as a digit.
pub fn star_level_from_label(label: &str) -> (r: Option<u8>)
    ensures
        match spec_star_from(spec_ws_tokens(label@), 0) {
            Option::Some(v) => r == Some(v as u8),
            Option::None => r is None,
        },
        r matches Some(l) ==> 1 <= l <= 5,
{
    let lc = chars_of(label);
    let tokens = split_whitespace(lc.as_slice());
    let ghost ts = spec_ws_tokens(label@);
    if tokens.len() < 2 {
        return None;
    }
    let n = tokens.len();
    let star_lit = chars_of("star");
    let mut i: usize = 0;
    while i < n - 1
        invariant
            ts == spec_ws_tokens(label@),
            n == tokens@.len() == ts.len(),
            forall|j: int| 0 <= j < n ==> (#[trigger] tokens@[j])@ == ts[j],
            star_lit@ == "star"@,
            n >= 2,
            i <= n,
            spec_star_from(ts, 0) == spec_star_from(ts, i as int),
        decreases n - i,
    {
        if starts_with_chars(tokens[i + 1].as_slice(), star_lit.as_slice()) {
            let tok = &tokens[i];
            proof {
                assert(tok@ == ts[i as int]);
            }
            if crate::text::is_all_digits(tok.as_slice()) {
                proof {
                    crate::text::lemma_digits_value_nonneg(tok@);
                    assert(crate::text::digits_of(tok@) =~= tok@) by {
                        lemma_all_digits_of(tok@);
                    }
                }
                if let Some(v) = crate::text::digits_to_u64(tok.as_slice()) {
                    if 1 <= v && v <= 5 {
                        return Some(v as u8);
                    }
                }
            }
            return None;
        }
        i = i + 1;
    }
    None
}

/// A digit-only string is its own digit subsequence.
proof fn lemma_all_digits_of(s: Seq<char>)
    requires
        forall|k: int| 0 <= k < s.len() ==> is_digit_char(#[trigger] s[k]),
    ensures
        crate::text::digits_of(s) =~= s,
    decreases s.len(),
{
    if s.len() > 0 {
        lemma_all_digits_of(s.drop_last());
    }
}

/// The non-empty maximal runs of non-whitespace characters, in order.
fn split_whitespace(s: &[char]) -> (r: Vec<Vec<char>>)
    ensures
        r@.len() == spec_ws_tokens(s@).len(),
        forall|j: int| 0 <= j < r@.len() ==> (#[trigger] r@[j])@ == spec_ws_tokens(s@)[j],
{
    let n = s.len();
    let mut r: Vec<Vec<char>> = Vec::new();
    let mut cur: Vec<char> = Vec::new();
    let ghost target = spec_ws_tokens(s@);
    let ghost mut done: Seq<Seq<char>> = Seq::empty();
    let mut i: usize = 0;
    while i < n
        invariant
            target == spec_ws_tokens(s@),
            n == s@.len(),
            i <= n,
            r@.len() == done.len(),
            forall|j: int| 0 <= j < done.len() ==> (#[trigger] r@[j])@ == done[j],
            target == done + spec_tokens_acc(s@, i as int, cur@),
        decreases n - i,
    {
        let c = s[i];
        if crate::text::is_space(c) {
            if cur.len() > 0 {
                proof {
                    assert(spec_tokens_acc(s@, i as int, cur@) == seq![cur@] + spec_tokens_acc(
                        s@,
                        i + 1,
                        Seq::<char>::empty(),
                    ));
                    done = done.push(cur@);
                    assert(done + spec_tokens_acc(s@, i + 1, Seq::<char>::empty()) =~= target);
                }
                r.push(cur);
                cur = Vec::new();
                proof {
                    assert(cur@ =~= Seq::<char>::empty());
                }
            } else {
                proof {
                    assert(cur@ =~= Seq::<char>::empty());
                    assert(spec_tokens_acc(s@, i as int, cur@) == spec_tokens_acc(
                        s@,
                        i + 1,
                        Seq::<char>::empty(),
                    ));
                }
            }
        } else {
            proof {
                assert(spec_tokens_acc(s@, i as int, cur@) == spec_tokens_acc(
                    s@,
                    i + 1,
                    cur@.push(s@[i as int]),
                ));
            }
            cur.push(c);
        }
        i = i + 1;
    }
    if cur.len() > 0 {
        proof {
            assert(spec_tokens_acc(s@, n as int, cur@) == seq![cur@]);
            done = done.push(cur@);
        }
        r.push(cur);
    } else {
        proof {
            assert(spec_tokens_acc(s@, n as int, cur@) =~= Seq::<Seq<char>>::empty());
        }
    }
    proof {
        assert(target =~= done);
    }
    r
}

/// Parse the review star-distribution of a product page: one bar row per
/// star level, its share read from the bar's width declaration. Absence of
/// all five levels is no distribution.
pub fn parse_review_distribution_html(html: &str) -> (r: Option<ReviewDistribution>)
    ensures
        r matches Some(d) ==> (d.five_star is Some || d.four_star is Some || d.three_star is Some
            || d.two_star is Some || d.one_star is Some),
{
    let containers = query_all_html(html, "ugc-review-progress-bar, .ugc-review-progress-wrap");
    if containers.len() == 0 {
        return None;
    }
    let buttons = query_all_html(containers[0].as_str(), "button.item");
    if buttons.len() == 0 {
        return None;
    }
    let mut five: Option<u32> = None;
    let mut four: Option<u32> = None;
    let mut three: Option<u32> = None;
    let mut two: Option<u32> = None;
    let mut one: Option<u32> = None;
    let n = buttons.len();
    let mut i: usize = 0;
    while i < n
        invariant
            n == buttons@.len(),
        decreases n - i,
    {
        let button_html = buttons[i].as_str();
        let label = match crate::dom::query_first_text(button_html, "button", " ") {
            Some(t) => t,
            None => {
                i = i + 1;
                continue ;
            },
        };
        let level = match star_level_from_label(label.as_str()) {
            Some(l) => l,
            None => {
                i = i + 1;
                continue ;
            },
        };
        let styles = query_all_attrs(button_html, ".percent-wrap span, span.block", "style");
        let m = styles.len();
        let mut j: usize = 0;
        while j < m
            invariant
                m == styles@.len(),
                1 <= level <= 5,
            decreases m - j,
        {
            if let Some(style) = &styles[j] {
                if let Some(pct) = parse_width_percent(style.as_str()) {
                    if level == 5 {
                        five = Some(pct);
                    } else if level == 4 {
                        four = Some(pct);
                    } else if level == 3 {
                        three = Some(pct);
                    } else if level == 2 {
                        two = Some(pct);
                    } else {
                        one = Some(pct);
                    }
                    break ;
                }
            }
            j = j + 1;
        }
        i = i + 1;
    }
    if matches!(five, None) && matches!(four, None) && matches!(three, None) && matches!(two, None)
        && matches!(one, None) {
        return None;
    }
    Some(
        ReviewDistribution {
            five_star: five,
            four_star: four,
            three_star: three,
            two_star: two,
            one_star: one,
        },
    )
}

/// A value from the product specification list, by label prefix: the text
/// after the label's colon, else the first span child's text.
pub fn extract_spec(html: &str, label: &str) -> (r: Option<String>)
    ensures
        r matches Some(t) ==> t@.len() > 0,
{
    let items = query_all_html(html, "#product-specs-list li");
    let n = items.len();
    let label_chars = chars_of(label);
    let mut i: usize = 0;
    while i < n
        invariant
            n == items@.len(),
        decreases n - i,
    {
        let li_html = items[i].as_str();
        if let Some(text) = crate::dom::query_first_text(li_html, "li", "") {
            let tc = chars_of(text.as_str());
            let t = trim_chars(tc.as_slice());
            if starts_with_chars(t.as_slice(), label_chars.as_slice()) {
                if let Some(value) = after_colon(t.as_slice()) {
                    if value.as_str().unicode_len() > 0 {
                        return Some(value);
                    }
                }
                if let Some(span_text) = crate::dom::query_first_text(li_html, "span", "") {
                    let sc = chars_of(span_text.as_str());
                    let st = trim_chars(sc.as_slice());
                    if st.len() > 0 {
                        return Some(string_of(st.as_slice()));
                    }
                }
            }
        }
        i = i + 1;
    }
    None
}

/// Whether a string value is empty.
fn str_empty(s: &String) -> (r: bool)
    ensures
        r == (s@.len() == 0),
{
    s.as_str().unicode_len() == 0
}

/// The canonical product URL for an identifier.
fn product_url_of(base_url: &str, product_id: &str) -> (r: String)
    ensures
        r@ == base_url@ + "/pr/p/"@ + product_id@,
{
    let mut r = String::from_str(base_url);
    r.append("/pr/p/");
    r.append(product_id);
    r
}

/// Cents denoted by a JSON value that carries a price either as a plain
/// decimal string or as a number.
fn money_from_value(v: &serde_json::Value) -> (r: Option<u64>) {
    match json_numeric_text(v) {
        Some(s) => {
            let cs = chars_of(s.as_str());
            parse_decimal_hundredths(cs.as_slice())
        },
        None => None,
    }
}

/// Hundredths of a star denoted by a JSON rating value.
fn rating_from_value(v: &serde_json::Value) -> (r: Option<u32>) {
    match json_numeric_text(v) {
        Some(s) => {
            let cs = chars_of(s.as_str());
            match parse_decimal_hundredths(cs.as_slice()) {
                Some(h) => {
                    if h <= 0xffff_ffffu64 {
                        Some(h as u32)
                    } else {
                        None
                    }
                },
                None => None,
            }
        },
        None => None,
    }
}

/// A review count carried as a plain digit string or as an unsigned number.
fn count_from_value(v: &serde_json::Value) -> (r: Option<u32>) {
    match json_str(v) {
        Some(s) => {
            let cs = chars_of(s.as_str());
            if crate::text::is_all_digits(cs.as_slice()) {
                proof {
                    crate::text::lemma_digits_value_nonneg(cs@);
                }
                match crate::text::digits_to_u64(cs.as_slice()) {
                    Some(n) => {
                        if n <= 0xffff_ffffu64 {
                            Some(n as u32)
                        } else {
                            None
                        }
                    },
                    None => None,
                }
            } else {
                None
            }
        },
        None => match json_u64(v) {
            Some(n) => Some(#[verifier::truncate] (n as u32)),
            None => None,
        },
    }
}

/// Extract price, original price and currency from the offers member of a
/// structured-data block. The dedicated current-versus-list-price
/// sub-structure is preferred over a flat price field when both are present:
/// the sub-structure's non-strikethrough entry is the current price, the
/// flat field serves only as a fallback, and a strikethrough entry survives
/// only when strictly above the current price.
pub fn extract_prices_from_offers(offers: Option<&serde_json::Value>) -> (r: (
    u64,
    Option<u64>,
    String,
))
    ensures
        r.1 matches Some(op) ==> op > r.0,
{
    let offers = match offers {
        Some(o) => o,
        None => {
            return (0, None, String::from_str("USD"));
        },
    };
    let top_price = match json_get(offers, "price") {
        Some(v) => money_from_value(v),
        None => None,
    };
    let top_currency = match json_get(offers, "priceCurrency") {
        Some(v) => json_str(v),
        None => None,
    };
    let mut current_price: Option<u64> = None;
    let mut strikethrough_price: Option<u64> = None;
    let mut spec_currency_found: Option<String> = None;
    if let Some(specs) = json_get(offers, "priceSpecification") {
        if let Some(len) = json_array_len(specs) {
            let mut i: usize = 0;
            while i < len
                decreases len - i,
            {
                if let Some(spec) = json_index(specs, i) {
                    let spec_price = match json_get(spec, "price") {
                        Some(v) => money_from_value(v),
                        None => None,
                    };
                    let spec_currency = match json_get(spec, "priceCurrency") {
                        Some(v) => json_str(v),
                        None => None,
                    };
                    let is_strikethrough = match json_get(spec, "priceType") {
                        Some(v) => match json_str(v) {
                            Some(s) => str_contains(s.as_str(), "StrikethroughPrice"),
                            None => false,
                        },
                        None => false,
                    };
                    if is_strikethrough {
                        strikethrough_price = spec_price;
                    } else {
                        current_price = spec_price;
                        if matches!(spec_currency_found, None) {
                            spec_currency_found = spec_currency;
                        }
                    }
                }
                i = i + 1;
            }
        }
    }
    let price = match current_price {
        Some(p) => p,
        None => match top_price {
            Some(p) => p,
            None => 0,
        },
    };
    let original = match strikethrough_price {
        Some(op) => {
            if op > price {
                Some(op)
            } else {
                None
            }
        },
        None => None,
    };
    let cur = match spec_currency_found {
        Some(c) => Some(c),
        None => top_currency,
    };
    let cur = match cur {
        Some(c) => c,
        None => String::from_str("USD"),
    };
    (price, original, cur)
}

/// Parse a product from the embedded structured-data block. `None` when the
/// block carries no non-empty name: such a block never yields a record.
pub fn parse_from_json_ld(
    data: &serde_json::Value,
    product_id: &str,
    base_url: &str,
) -> (r: Option<ProductDetail>)
    ensures
        r matches Some(p) ==> detail_wf(p) && p.name@.len() > 0 && p.product_id@ == product_id@,
{
    let name = match json_str_field(data, "name") {
        Some(n) => n,
        None => {
            return None;
        },
    };
    if str_empty(&name) {
        return None;
    }
    let brand = match json_get(data, "brand") {
        Some(b) => {
            match json_str_field(b, "name") {
                Some(s) => s,
                None => match json_str(b) {
                    Some(s) => s,
                    None => String::new(),
                },
            }
        },
        None => String::new(),
    };
    let offers = json_get(data, "offers");
    let (price, original_price, currency) = extract_prices_from_offers(offers);
    let in_stock = match offers {
        Some(o) => match json_get(o, "availability") {
            Some(v) => match json_str(v) {
                Some(s) => str_contains(s.as_str(), "InStock"),
                None => true,
            },
            None => true,
        },
        None => true,
    };
    let agg = json_get(data, "aggregateRating");
    let rating = match agg {
        Some(a) => match json_get(a, "ratingValue") {
            Some(v) => rating_from_value(v),
            None => None,
        },
        None => None,
    };
    let review_count = match agg {
        Some(a) => match json_get(a, "reviewCount") {
            Some(v) => count_from_value(v),
            None => None,
        },
        None => None,
    };
    let description = json_str_field(data, "description");
    let product_code = match json_get_or(data, "sku", "mpn") {
        Some(v) => json_str(v),
        None => None,
    };
    let upc = match json_get_or(data, "gtin12", "gtin13") {
        Some(v) => json_str(v),
        None => None,
    };
    let product_url = match json_str_field(data, "url") {
        Some(u) => u,
        None => product_url_of(base_url, product_id),
    };
    Some(
        ProductDetail {
            name,
            brand,
            price,
            original_price,
            currency,
            rating,
            review_count,
            product_url,
            product_id: String::from_str(product_id),
            in_stock,
            description,
            product_code,
            upc,
            ingredients: None,
            supplement_facts: None,
            suggested_use: None,
            warnings: None,
            shipping_weight: None,
            category_breadcrumb: None,
            review_distribution: None,
        },
    )
}

/// Parse a product from the in-page script globals. The price arrives as a
/// locale-formatted string and goes through the shared normalizer. `None`
/// when no non-empty name is present.
pub fn parse_from_js_globals(
    globals: &serde_json::Value,
    product_id: &str,
    base_url: &str,
    currency: &str,
) -> (r: Option<ProductDetail>)
    ensures
        r matches Some(p) ==> detail_wf(p) && p.name@.len() > 0 && p.product_id@ == product_id@,
        r matches Some(p) ==> {
            &&& p.original_price is None
            &&& p.currency@ == currency@
            &&& p.rating is None
            &&& p.review_count is None
            &&& p.in_stock == true
            &&& p.product_url@ == base_url@ + "/pr/p/"@ + product_id@
        },
{
    let pd = json_get(globals, "productDetails");
    let ihr = json_get(globals, "ihrProduct");
    let name = match ihr {
        Some(p) => match json_str_field(p, "prdNm") {
            Some(n) => Some(n),
            None => None,
        },
        None => None,
    };
    let name = match name {
        Some(n) => Some(n),
        None => match pd {
            Some(p) => json_str_field(p, "name"),
            None => None,
        },
    };
    let name = match name {
        Some(n) => n,
        None => {
            return None;
        },
    };
    if str_empty(&name) {
        return None;
    }
    let brand = match ihr {
        Some(p) => match json_str_field(p, "brndNm") {
            Some(b) => b,
            None => String::new(),
        },
        None => String::new(),
    };
    let price_str = match ihr {
        Some(p) => match json_str_field(p, "prc") {
            Some(s) => s,
            None => String::from_str("0"),
        },
        None => String::from_str("0"),
    };
    let pc = chars_of(price_str.as_str());
    let price = match parse_price_chars(pc.as_slice()) {
        Some(p) => p,
        None => 0,
    };
    let product_code = match pd {
        Some(p) => json_str_field(p, "code"),
        None => None,
    };
    let product_code = match product_code {
        Some(c) => Some(c),
        None => match ihr {
            Some(p) => json_str_field(p, "prtNum"),
            None => None,
        },
    };
    Some(
        ProductDetail {
            name,
            brand,
            price,
            original_price: None,
            currency: String::from_str(currency),
            rating: None,
            review_count: None,
            product_url: product_url_of(base_url, product_id),
            product_id: String::from_str(product_id),
            in_stock: true,
            description: None,
            product_code,
            upc: None,
            ingredients: None,
            supplement_facts: None,
            suggested_use: None,
            warnings: None,
            shipping_weight: None,
            category_breadcrumb: None,
            review_distribution: None,
        },
    )
}

/// Parse a product from the framework page-data blob. `None` when the blob
/// carries no product object or no non-empty name.
pub fn parse_from_next_data(
    data: &serde_json::Value,
    product_id: &str,
    base_url: &str,
) -> (r: Option<ProductDetail>)
    ensures
        r matches Some(p) ==> detail_wf(p) && p.name@.len() > 0 && p.product_id@ == product_id@,
        r matches Some(p) ==> p.product_url@ == base_url@ + "/pr/p/"@ + product_id@,
{
    let props = match json_get(data, "props") {
        Some(p) => p,
        None => {
            return None;
        },
    };
    let props = match json_get(props, "pageProps") {
        Some(p) => p,
        None => {
            return None;
        },
    };
    let product = match json_get_or(props, "product", "productData") {
        Some(p) => Some(p),
        None => json_get(props, "initialProduct"),
    };
    let product = match product {
        Some(p) => p,
        None => {
            return None;
        },
    };
    let name = match json_get_or(product, "title", "name") {
        Some(v) => match json_str(v) {
            Some(s) => s,
            None => String::new(),
        },
        None => String::new(),
    };
    if str_empty(&name) {
        return None;
    }
    let brand = match json_str_field(product, "brandName") {
        Some(b) => b,
        None => {
            match json_get(product, "brand") {
                Some(b) => match json_str_field(b, "name") {
                    Some(s) => s,
                    None => String::new(),
                },
                None => String::new(),
            }
        },
    };
    let price = match json_get_or(product, "price", "discountPrice") {
        Some(v) => match json_number_cents(v) {
            Some(p) => p,
            None => 0,
        },
        None => 0,
    };
    let original_price = match json_get_or(product, "listPrice", "retailPrice") {
        Some(v) => match json_number_cents(v) {
            Some(op) => {
                if op > price {
                    Some(op)
                } else {
                    None
                }
            },
            None => None,
        },
        None => None,
    };
    let currency = match json_str_field(product, "currency") {
        Some(c) => c,
        None => String::from_str("USD"),
    };
    let rating = match json_get_or(product, "rating", "averageRating") {
        Some(v) => match json_number_string_of(v) {
            Some(s) => {
                let cs = chars_of(s.as_str());
                match parse_decimal_hundredths(cs.as_slice()) {
                    Some(h) => {
                        if h <= 0xffff_ffffu64 {
                            Some(h as u32)
                        } else {
                            None
                        }
                    },
                    None => None,
                }
            },
            None => None,
        },
        None => None,
    };
    let review_count = match json_get_or(product, "reviewCount", "numberOfReviews") {
        Some(v) => match json_u64(v) {
            Some(n) => Some(#[verifier::truncate] (n as u32)),
            None => None,
        },
        None => None,
    };
    let in_stock = match json_get_or(product, "inStock", "isInStock") {
        Some(v) => match json_bool(v) {
            Some(b) => b,
            None => true,
        },
        None => true,
    };
    let description = json_str_field(product, "description");
    let product_code = match json_get_or(product, "partNumber", "productCode") {
        Some(v) => json_str(v),
        None => None,
    };
    let upc = json_str_field(product, "upc");
    let ingredients = json_str_field(product, "ingredients");
    let suggested_use = json_str_field(product, "suggestedUse");
    let warnings = json_str_field(product, "warnings");
    let shipping_weight = json_str_field(product, "shippingWeight");
    Some(
        ProductDetail {
            name,
            brand,
            price,
            original_price,
            currency,
            rating,
            review_count,
            product_url: product_url_of(base_url, product_id),
            product_id: String::from_str(product_id),
            in_stock,
            description,
            product_code,
            upc,
            ingredients,
            supplement_facts: None,
            suggested_use,
            warnings,
            shipping_weight,
            category_breadcrumb: None,
            review_distribution: None,
        },
    )
}

/// Cents from a JSON number value (a number, not a string).
fn json_number_cents(v: &serde_json::Value) -> (r: Option<u64>) {
    match json_number_string_of(v) {
        Some(s) => {
            let cs = chars_of(s.as_str());
            parse_decimal_hundredths(cs.as_slice())
        },
        None => None,
    }
}

fn json_number_string_of(v: &serde_json::Value) -> (r: Option<String>) {
    crate::jsonval::json_number_string(v)
}

/// The fields the enrichment pass never touches.
pub open spec fn keeps_identity(a: ProductDetail, b: ProductDetail) -> bool {
    &&& a.name == b.name
    &&& a.product_id == b.product_id
    &&& a.product_url == b.product_url
    &&& a.currency == b.currency
}

/// Everything but the free-text section fields is equal.
pub open spec fn same_but_sections(a: ProductDetail, b: ProductDetail) -> bool {
    &&& keeps_identity(a, b)
    &&& a.brand == b.brand
    &&& a.price == b.price
    &&& a.original_price == b.original_price
    &&& a.rating == b.rating
    &&& a.review_count == b.review_count
    &&& a.in_stock == b.in_stock
    &&& a.product_code == b.product_code
    &&& a.upc == b.upc
    &&& a.supplement_facts == b.supplement_facts
    &&& a.shipping_weight == b.shipping_weight
    &&& a.category_breadcrumb == b.category_breadcrumb
    &&& a.review_distribution == b.review_distribution
}

/// Price reconciliation against the page's hidden share-price input: when
/// the page carries a list price above its discount price, the list price
/// becomes the original price, and the discount price supersedes a current
/// price that equals the list price (the structural source sometimes reports
/// list price as current) or is zero. The record is touched only where the
/// discount relation stays strict, so well-formedness is preserved.
pub fn enrich_pricing(html: &str, product: &mut ProductDetail)
    ensures
        keeps_identity(*old(product), *final(product)),
        detail_wf(*old(product)) ==> detail_wf(*final(product)),
        old(product).original_price is Some && old(product).price > 0 ==> *final(product) == *old(product),
        (final(product).price == old(product).price && final(product).original_price == old(product).original_price) || (final(product).original_price matches Some(l) && l > final(product).price),
        final(product).rating == old(product).rating,
        final(product).review_count == old(product).review_count,
        final(product).brand == old(product).brand,
        final(product).in_stock == old(product).in_stock,
        final(product).description == old(product).description,
        final(product).product_code == old(product).product_code,
        final(product).upc == old(product).upc,
        final(product).ingredients == old(product).ingredients,
        final(product).supplement_facts == old(product).supplement_facts,
        final(product).suggested_use == old(product).suggested_use,
        final(product).warnings == old(product).warnings,
        final(product).shipping_weight == old(product).shipping_weight,
        final(product).category_breadcrumb == old(product).category_breadcrumb,
        final(product).review_distribution == old(product).review_distribution,
{
    if product.original_price.is_some() && product.price > 0 {
        return ;
    }
    let list = match query_first_attr(html, "input#share-email-model", "data-list-price") {
        Some(s) => {
            let cs = chars_of(s.as_str());
            parse_price_chars(cs.as_slice())
        },
        None => None,
    };
    let disc = match query_first_attr(html, "input#share-email-model", "data-discount-price") {
        Some(s) => {
            let cs = chars_of(s.as_str());
            parse_price_chars(cs.as_slice())
        },
        None => None,
    };
    if let (Some(list), Some(disc)) = (list, disc) {
        if list > disc {
            let new_price = if product.price == list || product.price == 0 {
                disc
            } else {
                product.price
            };
            if list > new_price {
                product.original_price = Some(list);
                product.price = new_price;
            }
        }
    }
}

/// Fill rating and review count from the DOM where the structural source
/// left them unset; set fields are never overwritten.
pub fn enrich_rating_and_reviews(html: &str, product: &mut ProductDetail)
    ensures
        keeps_identity(*old(product), *final(product)),
        detail_wf(*old(product)) ==> detail_wf(*final(product)),
        old(product).rating is Some ==> final(product).rating == old(product).rating,
        old(product).review_count is Some ==> final(product).review_count == old(product).review_count,
        final(product).price == old(product).price,
        final(product).original_price == old(product).original_price,
        final(product).brand == old(product).brand,
        final(product).in_stock == old(product).in_stock,
        final(product).description == old(product).description,
        final(product).product_code == old(product).product_code,
        final(product).upc == old(product).upc,
        final(product).ingredients == old(product).ingredients,
        final(product).supplement_facts == old(product).supplement_facts,
        final(product).suggested_use == old(product).suggested_use,
        final(product).warnings == old(product).warnings,
        final(product).shipping_weight == old(product).shipping_weight,
        final(product).category_breadcrumb == old(product).category_breadcrumb,
        final(product).review_distribution == old(product).review_distribution,
{
    if product.rating.is_none() {
        product.rating = extract_rating_from_stars(html);
    }
    if product.review_count.is_none() {
        if let Some(text) = extract_text(html, "a.rating-count span") {
            product.review_count = parse_review_count(text.as_str());
        }
    }
}

/// Fill specification-list fields (shipping weight, product code, UPC) where
/// the structural source left them unset.
pub fn enrich_product_specs(html: &str, product: &mut ProductDetail)
    ensures
        keeps_identity(*old(product), *final(product)),
        detail_wf(*old(product)) ==> detail_wf(*final(product)),
        old(product).shipping_weight is Some ==> final(product).shipping_weight == old(product).shipping_weight,
        old(product).product_code is Some ==> final(product).product_code == old(product).product_code,
        old(product).upc is Some ==> final(product).upc == old(product).upc,
        final(product).price == old(product).price,
        final(product).original_price == old(product).original_price,
        final(product).rating == old(product).rating,
        final(product).review_count == old(product).review_count,
        final(product).brand == old(product).brand,
        final(product).in_stock == old(product).in_stock,
        final(product).description == old(product).description,
        final(product).ingredients == old(product).ingredients,
        final(product).supplement_facts == old(product).supplement_facts,
        final(product).suggested_use == old(product).suggested_use,
        final(product).warnings == old(product).warnings,
        final(product).category_breadcrumb == old(product).category_breadcrumb,
        final(product).review_distribution == old(product).review_distribution,
{
    if product.shipping_weight.is_none() {
        product.shipping_weight = extract_spec(html, "Shipping Weight");
    }
    if product.product_code.is_none() {
        product.product_code = extract_spec(html, "Product Code");
    }
    if product.upc.is_none() {
        product.upc = extract_spec(html, "UPC");
    }
}

/// Route one overview section's content by its heading: the first heading
/// matching a known section name fills that section; a section already set
/// keeps its text.
pub fn assign_section_by_heading(heading_lower: &[char], content: String, product: &mut
    ProductDetail)
    ensures
        same_but_sections(*old(product), *final(product)),
        detail_wf(*old(product)) ==> detail_wf(*final(product)),
        spec_contains(heading_lower@, "suggested use"@) && old(product).suggested_use is None
            ==> final(product).suggested_use == Some(content),
        old(product).suggested_use is Some ==> final(product).suggested_use == old(product).suggested_use,
        old(product).warnings is Some ==> final(product).warnings == old(product).warnings,
        old(product).description is Some ==> final(product).description == old(product).description,
        final(product).ingredients == old(product).ingredients,
{
    let su = chars_of("suggested use");
    let wa = chars_of("warning");
    let de = chars_of("description");
    if contains_chars(heading_lower, su.as_slice()) && product.suggested_use.is_none() {
        product.suggested_use = Some(content);
    } else if contains_chars(heading_lower, wa.as_slice()) && product.warnings.is_none() {
        product.warnings = Some(content);
    } else if contains_chars(heading_lower, de.as_slice()) && product.description.is_none() {
        product.description = Some(content);
    }
}

/// Fill free-text sections (ingredients, suggested use, warnings,
/// description) from the product overview: each section is located by a
/// case-insensitive heading match and takes the following content block;
/// the first match per section wins.
pub fn parse_overview_sections(html: &str, product: &mut ProductDetail)
    ensures
        same_but_sections(*old(product), *final(product)),
        detail_wf(*old(product)) ==> detail_wf(*final(product)),
        old(product).ingredients is Some ==> final(product).ingredients == old(product).ingredients,
        old(product).suggested_use is Some ==> final(product).suggested_use == old(product).suggested_use,
        old(product).warnings is Some ==> final(product).warnings == old(product).warnings,
        old(product).description is Some ==> final(product).description == old(product).description,
{
    if product.ingredients.is_none() {
        if let Some(text) = extract_text(html, ".prodOverviewIngred") {
            product.ingredients = Some(text);
        }
    }
    let headings = query_heading_siblings(html, "#product-overview h3");
    let n = headings.len();
    let mut i: usize = 0;
    while i < n
        invariant
            n == headings@.len(),
            same_but_sections(*old(product), *product),
            detail_wf(*old(product)) ==> detail_wf(*product),
            old(product).ingredients is Some ==> product.ingredients == old(product).ingredients,
            old(product).suggested_use is Some ==> product.suggested_use == old(product).suggested_use,
            old(product).warnings is Some ==> product.warnings == old(product).warnings,
            old(product).description is Some ==> product.description == old(product).description,
        decreases n - i,
    {
        let heading = &headings[i].0;
        if let Some(c) = first_div_text(&headings[i].1) {
            let cc = chars_of(c.as_str());
            let ct = trim_chars(cc.as_slice());
            if ct.len() > 0 {
                let hc = chars_of(heading.as_str());
                let ht = trim_chars(hc.as_slice());
                let hl = lower_chars(ht.as_slice());
                assign_section_by_heading(hl.as_slice(), string_of(ct.as_slice()), product);
            }
        }
        i = i + 1;
    }
}

/// The text of the first sibling element that is a `<div>`, when one
/// exists: the content block that follows an overview heading.
fn first_div_text(siblings: &Vec<(String, String)>) -> (r: Option<String>)
    ensures
        r is Some ==> exists|k: int|
            0 <= k < siblings@.len() && (#[trigger] siblings@[k]).0@ == "div"@,
{
    let n = siblings.len();
    let mut i: usize = 0;
    while i < n
        invariant
            n == siblings@.len(),
        decreases n - i,
    {
        if str_eq(siblings[i].0.as_str(), "div") {
            proof {
                assert(siblings@[i as int].0@ == "div"@);
            }
            return Some(siblings[i].1.clone());
        }
        i = i + 1;
    }
    None
}

/// The DOM enrichment pass: fill any field the structural source left
/// unset, without overwriting one it populated — except the price
/// reconciliation of `enrich_pricing`. The record's identity (name, id,
/// URL, currency) never changes, and well-formedness is preserved.
pub fn enrich_from_html(html: &str, product: &mut ProductDetail)
    ensures
        keeps_identity(*old(product), *final(product)),
        detail_wf(*old(product)) ==> detail_wf(*final(product)),
        old(product).brand@.len() > 0 ==> final(product).brand == old(product).brand,
        old(product).rating is Some ==> final(product).rating == old(product).rating,
        old(product).review_count is Some ==> final(product).review_count == old(product).review_count,
        old(product).description is Some ==> final(product).description == old(product).description,
        old(product).ingredients is Some ==> final(product).ingredients == old(product).ingredients,
        old(product).suggested_use is Some ==> final(product).suggested_use == old(product).suggested_use,
        old(product).warnings is Some ==> final(product).warnings == old(product).warnings,
        old(product).supplement_facts is Some ==> final(product).supplement_facts == old(product).supplement_facts,
        old(product).review_distribution is Some ==> final(product).review_distribution == old(product).review_distribution,
        old(product).product_code is Some ==> final(product).product_code == old(product).product_code,
        old(product).upc is Some ==> final(product).upc == old(product).upc,
        old(product).shipping_weight is Some ==> final(product).shipping_weight == old(product).shipping_weight,
        old(product).original_price is Some && old(product).price > 0 ==> final(product).price
            == old(product).price && final(product).original_price == old(product).original_price,
        (final(product).price == old(product).price && final(product).original_price == old(product).original_price) || (final(product).original_price matches Some(l) && l > final(product).price),
{
    if str_empty(&product.brand) {
        if let Some(brand) = extract_text(
            html,
            "#brand a span bdi, #brand a[data-testid='product-brand-link'] span bdi",
        ) {
            product.brand = brand;
        }
    }
    enrich_pricing(html, product);
    enrich_rating_and_reviews(html, product);
    if let Some(stock_text) = extract_text(html, "#stock-status .stock-status-content strong") {
        let sc = chars_of(stock_text.as_str());
        let sl = lower_chars(sc.as_slice());
        let marker = chars_of("in stock");
        product.in_stock = contains_chars(sl.as_slice(), marker.as_slice());
    }
    enrich_product_specs(html, product);
    parse_overview_sections(html, product);
    if product.supplement_facts.is_none() {
        product.supplement_facts = parse_supplement_facts_html(html);
    }
    if product.review_distribution.is_none() {
        product.review_distribution = parse_review_distribution_html(html);
    }
}

/// Current and original price from the page's hidden share-price input:
/// the discount price with the list price as original when the list price
/// is strictly above it.
pub fn extract_prices_from_input(html: &str) -> (r: Option<(u64, Option<u64>)>)
    ensures
        r matches Some(t) ==> (t.1 matches Some(l) ==> l > t.0),
{
    let list = match query_first_attr(html, "input#share-email-model", "data-list-price") {
        Some(s) => {
            let cs = chars_of(s.as_str());
            parse_price_chars(cs.as_slice())
        },
        None => None,
    };
    let disc = match query_first_attr(html, "input#share-email-model", "data-discount-price") {
        Some(s) => {
            let cs = chars_of(s.as_str());
            parse_price_chars(cs.as_slice())
        },
        None => None,
    };
    match (disc, list) {
        (Some(d), Some(l)) => {
            if l > d {
                Some((d, Some(l)))
            } else {
                Some((d, None))
            }
        },
        (Some(d), None) => Some((d, None)),
        (None, Some(l)) => Some((l, None)),
        (None, None) => None,
    }
}

/// The validation gate on a product record: a record with zero price and
/// neither a rating nor a review count is treated as not found, since the
/// site sometimes renders a templated empty page without a clear marker.
pub open spec fn spec_validation_gate(p: ProductDetail) -> bool {
    !(p.price == 0 && p.rating is None && p.review_count is None)
}

/// Whether a record passes the validation gate.
pub fn passes_validation_gate(p: &ProductDetail) -> (r: bool)
    ensures
        r == spec_validation_gate(*p),
{
    !(p.price == 0 && p.rating.is_none() && p.review_count.is_none())
}

/// Last-resort extraction of a product from the DOM alone. A page without a
/// usable name — empty or the site's placeholder — and a page failing the
/// validation gate are both not-found outcomes, never a record.
pub fn parse_from_html(
    html: &str,
    product_id: &str,
    base_url: &str,
    currency: &str,
) -> (r: Result<ProductDetail, IherbError>)
    ensures
        crate::helpers::spec_is_not_found(html@) ==> r is Err,
        r matches Ok(p) ==> detail_wf(p) && p.name@.len() > 0 && p.product_id@ == product_id@,
        r matches Ok(p) ==> spec_validation_gate(p),
        r matches Err(e) ==> e is ProductNotFound,
{
    if is_not_found_page(html) {
        return Err(IherbError::ProductNotFound(String::from_str(product_id)));
    }
    let name = match extract_text(html, "h1#name, h1[data-testid='product-name'], h1") {
        Some(n) => n,
        None => {
            return Err(IherbError::ProductNotFound(String::from_str(product_id)));
        },
    };
    if str_empty(&name) || str_eq(name.as_str(), "Unknown Product") {
        return Err(IherbError::ProductNotFound(String::from_str(product_id)));
    }
    let brand = match extract_text(
        html,
        "#brand a span bdi, #brand a[data-testid='product-brand-link'] span bdi",
    ) {
        Some(b) => b,
        None => String::new(),
    };
    let (price, original_price) = match extract_prices_from_input(html) {
        Some(t) => t,
        None => {
            let p = match extract_text(
                html,
                ".purchase-option-one-time .list-price, #product-price .list-price, .price",
            ) {
                Some(s) => {
                    let cs = chars_of(s.as_str());
                    match parse_price_chars(cs.as_slice()) {
                        Some(v) => v,
                        None => 0,
                    }
                },
                None => 0,
            };
            (p, None)
        },
    };
    let rating = extract_rating_from_stars(html);
    let review_count = match extract_text(html, "a.rating-count span") {
        Some(s) => parse_review_count(s.as_str()),
        None => None,
    };
    let in_stock = match extract_text(html, "#stock-status .stock-status-content strong") {
        Some(s) => {
            let sc = chars_of(s.as_str());
            let sl = lower_chars(sc.as_slice());
            let marker = chars_of("in stock");
            contains_chars(sl.as_slice(), marker.as_slice())
        },
        None => !str_contains(html, "Out of Stock"),
    };
    if price == 0 && rating.is_none() && review_count.is_none() {
        return Err(IherbError::ProductNotFound(String::from_str(product_id)));
    }
    let product_code = extract_spec(html, "Product Code");
    let upc = extract_spec(html, "UPC");
    let shipping_weight = extract_spec(html, "Shipping Weight");
    let supplement_facts = parse_supplement_facts_html(html);
    let review_distribution = parse_review_distribution_html(html);
    let detected_currency = match detect_currency_from_html(html) {
        Some(c) => c,
        None => String::from_str(currency),
    };
    let mut product = ProductDetail {
        name,
        brand,
        price,
        original_price,
        currency: detected_currency,
        rating,
        review_count,
        product_url: product_url_of(base_url, product_id),
        product_id: String::from_str(product_id),
        in_stock,
        description: None,
        product_code,
        upc,
        ingredients: None,
        supplement_facts,
        suggested_use: None,
        warnings: None,
        shipping_weight,
        category_breadcrumb: None,
        review_distribution,
    };
    parse_overview_sections(html, &mut product);
    Ok(product)
}

/// Extract a product record from a fetched page: the structured-data block
/// first, then the in-page script globals, then the page-data blob — each
/// of the first two followed by the DOM enrichment pass — and the DOM
/// battery last. A page carrying a not-found marker, or whose record fails
/// the validation gate, is the not-found outcome. The payloads of the two
/// page-evaluated sources are handed in by the caller, which read them from
/// the live page.
pub fn extract_product(
    html: &str,
    js_globals_json: Option<&str>,
    next_data_json: Option<&str>,
    product_id: &str,
    base_url: &str,
    currency: &str,
) -> (r: Result<ProductDetail, IherbError>)
    ensures
        crate::helpers::spec_is_not_found(html@) ==> r is Err,
        r matches Ok(p) ==> detail_wf(p) && p.name@.len() > 0 && p.product_id@ == product_id@,
        r matches Ok(p) ==> spec_validation_gate(p),
        r matches Err(e) ==> e is ProductNotFound,
{
    if is_not_found_page(html) {
        return Err(IherbError::ProductNotFound(String::from_str(product_id)));
    }
    let candidate = extract_product_candidate(
        html,
        js_globals_json,
        next_data_json,
        product_id,
        base_url,
        currency,
    );
    match candidate {
        Ok(product) => {
            if passes_validation_gate(&product) {
                Ok(product)
            } else {
                Err(IherbError::ProductNotFound(String::from_str(product_id)))
            }
        },
        Err(e) => Err(e),
    }
}

/// The strategy cascade itself, before the final validation gate.
fn extract_product_candidate(
    html: &str,
    js_globals_json: Option<&str>,
    next_data_json: Option<&str>,
    product_id: &str,
    base_url: &str,
    currency: &str,
) -> (r: Result<ProductDetail, IherbError>)
    ensures
        r matches Ok(p) ==> detail_wf(p) && p.name@.len() > 0 && p.product_id@ == product_id@,
        r matches Err(e) ==> e is ProductNotFound,
{
    if let Some(json_ld) = extract_json_ld(html) {
        if let Some(mut product) = parse_from_json_ld(&json_ld, product_id, base_url) {
            enrich_from_html(html, &mut product);
            return Ok(product);
        }
    }
    if let Some(globals_text) = js_globals_json {
        if let Some(globals) = json_parse(globals_text) {
            if let Some(mut product) = parse_from_js_globals(
                &globals,
                product_id,
                base_url,
                currency,
            ) {
                enrich_from_html(html, &mut product);
                return Ok(product);
            }
        }
    }
    if let Some(next_text) = next_data_json {
        if let Some(next_data) = json_parse(next_text) {
            if let Some(product) = parse_from_next_data(&next_data, product_id, base_url) {
                return Ok(product);
            }
        }
    }
    parse_from_html(html, product_id, base_url, currency)
}

/// The rating read from the star widget's title ("4.8/5 - 42,328 Reviews"):
/// the plain decimal before the first slash, in hundredths of a star.
pub fn extract_rating_from_stars(html: &str) -> (r: Option<u32>) {
    let title = match query_first_attr(html, "a.stars.scroll-to, a.stars", "title") {
        Some(t) => t,
        None => {
            return None;
        },
    };
    parse_rating_title(title.as_str())
}

/// The rating a star-widget title denotes, in hundredths of a star: the
/// trimmed text before the first slash (the whole title when there is no
/// slash), read as a plain decimal that fits a `u32`.
pub open spec fn spec_rating_title(t: Seq<char>) -> Option<int> {
    let head = if crate::text::first_idx(t, '/') >= 0 {
        t.take(crate::text::first_idx(t, '/'))
    } else {
        t
    };
    match crate::price::spec_decimal_value(spec_trim(head)) {
        Option::Some(v) => if v <= u32::MAX {
            Some(v)
        } else {
            None
        },
        Option::None => None,
    }
}

/// The rating named by a star-widget title ("4.8/5 - 42,328 Reviews").
pub fn parse_rating_title(title: &str) -> (r: Option<u32>)
    ensures
        match spec_rating_title(title@) {
            Option::Some(v) => r == Some(v as u32),
            Option::None => r is None,
        },
{
    let tc = chars_of(title);
    let head = match find_char(tc.as_slice(), '/') {
        Some(i) => {
            proof {
                crate::text::lemma_first_idx_bounds(tc@, '/');
            }
            let mut h: Vec<char> = Vec::new();
            let mut j: usize = 0;
            while j < i
                invariant
                    i < tc@.len(),
                    j <= i,
                    h@ == tc@.take(j as int),
                decreases i - j,
            {
                h.push(tc[j]);
                j = j + 1;
                proof {
                    assert(h@ =~= tc@.take(j as int));
                }
            }
            h
        },
        None => tc,
    };
    let t = trim_chars(head.as_slice());
    match parse_decimal_hundredths(t.as_slice()) {
        Some(v) => {
            proof {
                crate::price::lemma_decimal_value_nonneg(t@);
            }
            if v <= 0xffff_ffffu64 {
                Some(v as u32)
            } else {
                None
            }
        },
        None => None,
    }
}

} // verus!
