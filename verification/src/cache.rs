//! Artifact-cache policy: freshness windows, the bypass-read mode, and
//! derivation of bounded, collision-resistant cache keys.
//!
//! The cache itself is files on disk, written and read by the application
//! crate; everything that decides — whether a lookup is allowed, whether an
//! artifact of a given age is still fresh, and under which file name an
//! artifact lives — is here.

use vstd::prelude::*;
use vstd::string::StrSliceExecFns;
use vstd::string::StringExecFns;
use vstd::string::StringSliceAdditionalSpecFns;

use crate::cli::{spec_sort_cache_key, SortOrder};
use crate::text::string_of;

verus! {

/// Product pages change slowly: one day.
pub const PRODUCT_TTL_SECS: u64 = 86400;

/// Search results change fast (stock, price, ranking): one hour.
pub const SEARCH_TTL_SECS: u64 = 3600;

#[derive(Debug, Clone, Copy, PartialEq, Eq, Structural)]
pub enum CacheKind {
    Product,
    Search,
}

pub open spec fn spec_ttl_secs(kind: CacheKind) -> u64 {
    match kind {
        CacheKind::Product => PRODUCT_TTL_SECS,
        CacheKind::Search => SEARCH_TTL_SECS,
    }
}

/// The freshness window of each artifact kind, in seconds.
pub fn ttl_secs(kind: CacheKind) -> (r: u64)
    ensures
        r == spec_ttl_secs(kind),
{
    match kind {
        CacheKind::Product => PRODUCT_TTL_SECS,
        CacheKind::Search => SEARCH_TTL_SECS,
    }
}

/// An artifact is fresh strictly before its window elapses, and stale
/// at and after it.
pub fn is_fresh(kind: CacheKind, age_secs: u64) -> (r: bool)
    ensures
        r == (age_secs < spec_ttl_secs(kind)),
{
    age_secs < ttl_secs(kind)
}

pub struct Cache {
    dir: String,
    read_enabled: bool,
}

impl Cache {
    pub closed spec fn spec_dir(&self) -> Seq<char> {
        self.dir@
    }

    /// Whether lookups are answered; writes happen either way.
    pub closed spec fn spec_read_enabled(&self) -> bool {
        self.read_enabled
    }

    /// Create a cache. When `no_cache` is true, reads are skipped but writes
    /// still happen, so a forced refresh repopulates the cache.
    pub fn new(cache_dir: String, no_cache: bool) -> (r: Self)
        ensures
            r.spec_dir() == cache_dir@,
            r.spec_read_enabled() == !no_cache,
    {
        Cache { dir: cache_dir, read_enabled: !no_cache }
    }

    /// The cache directory, as handed to `new`.
    pub fn dir(&self) -> (r: &String)
        ensures
            r@ == self.spec_dir(),
    {
        &self.dir
    }

    /// Whether lookups are answered at all (bypass-read mode disables them).
    pub fn read_enabled(&self) -> (r: bool)
        ensures
            r == self.spec_read_enabled(),
    {
        self.read_enabled
    }

    /// File name of a product artifact: the product identifier verbatim.
    pub fn product_cache_file(product_id: &str) -> (r: String)
        ensures
            r@ == "product_"@ + product_id@ + ".json"@,
    {
        let mut r = String::from_str("product_");
        r.append(product_id);
        r.append(".json");
        r
    }

    /// File name of a search artifact, from the derived digest key.
    pub fn search_cache_file(key: &String) -> (r: String)
        ensures
            r@ == "search_"@ + key@ + ".json"@,
    {
        let mut r = String::from_str("search_");
        r.append(key.as_str());
        r.append(".json");
        r
    }

    /// Derived key of a search artifact: sixteen hex characters over the
    /// query, the sort token and the optional category filter, so that file
    /// names stay bounded and collision-resistant in practice.
    pub fn search_key(query: &str, sort: SortOrder, category: Option<&str>) -> (r: String)
        ensures
            r@ == spec_hex_lower(
                sha256_of(spec_search_key_material(query@, sort, spec_view_opt(category))).take(8),
            ),
            r@.len() == 16,
    {
        let mut material: Vec<u8> = query.as_bytes_vec();
        let sort_bytes = sort.as_cache_key().as_bytes_vec();
        push_all(&mut material, sort_bytes.as_slice());
        if let Some(cat) = category {
            let cat_bytes = cat.as_bytes_vec();
            push_all(&mut material, cat_bytes.as_slice());
        }
        proof {
            assert(material@ =~= spec_search_key_material(query@, sort, spec_view_opt(category)));
        }
        let digest = sha256(material.as_slice());
        let mut first8: Vec<u8> = Vec::new();
        let mut i: usize = 0;
        while i < 8
            invariant
                digest@.len() == 32,
                i <= 8,
                first8@ == digest@.take(i as int),
            decreases 8 - i,
        {
            first8.push(digest[i]);
            i = i + 1;
            proof {
                assert(first8@ =~= digest@.take(i as int));
            }
        }
        let r = to_hex_lower(first8.as_slice());
        proof {
            lemma_hex_len(first8@);
        }
        r
    }
}

pub open spec fn spec_view_opt(o: Option<&str>) -> Option<Seq<char>> {
    match o {
        Option::Some(s) => Some(s@),
        Option::None => None,
    }
}

/// Bytes hashed into a search key: query, sort token, then category when
/// present, each UTF-8 encoded, concatenated in that order.
pub open spec fn spec_search_key_material(
    query: Seq<char>,
    sort: SortOrder,
    category: Option<Seq<char>>,
) -> Seq<u8> {
    vstd::utf8::encode_utf8(query) + vstd::utf8::encode_utf8(spec_sort_cache_key(sort)) + (
    match category {
        Option::Some(c) => vstd::utf8::encode_utf8(c),
        Option::None => Seq::empty(),
    })
}

/// The SHA-256 digest, a pure function of its input alone.
pub uninterp spec fn sha256_of(data: Seq<u8>) -> Seq<u8>;

/// Relies on sha2's `Sha256::digest`: the SHA-256 digest of the input,
/// 32 bytes, depending on the input bytes alone.
#[verifier::external_body]
fn sha256(data: &[u8]) -> (r: Vec<u8>)
    ensures
        r@ == sha256_of(data@),
        r@.len() == 32,
{
    <sha2::Sha256 as sha2::Digest>::digest(data).to_vec()
}

/// The lower-case hex digit for one value 0..=15.
pub open spec fn hex_digit(d: int) -> char {
    if d < 10 {
        ((48 + d) as u8) as char
    } else {
        ((87 + d) as u8) as char
    }
}

/// Lower-case hex encoding: two digits per byte, high nibble first.
pub open spec fn spec_hex_lower(data: Seq<u8>) -> Seq<char>
    decreases data.len(),
{
    if data.len() == 0 {
        Seq::empty()
    } else {
        spec_hex_lower(data.drop_last()).push(hex_digit((data.last() >> 4) as int)).push(
            hex_digit((data.last() & 0x0f) as int),
        )
    }
}

pub proof fn lemma_hex_len(data: Seq<u8>)
    ensures
        spec_hex_lower(data).len() == 2 * data.len(),
    decreases data.len(),
{
    if data.len() > 0 {
        lemma_hex_len(data.drop_last());
    }
}

/// The lower-case hex rendering of `data`.
pub fn to_hex_lower(data: &[u8]) -> (r: String)
    ensures
        r@ == spec_hex_lower(data@),
{
    let n = data.len();
    let mut v: Vec<char> = Vec::new();
    let mut i: usize = 0;
    while i < n
        invariant
            n == data@.len(),
            i <= n,
            v@ == spec_hex_lower(data@.take(i as int)),
        decreases n - i,
    {
        proof {
            assert(data@.take(i + 1).drop_last() =~= data@.take(i as int));
        }
        let b = data[i];
        let hi: u8 = b >> 4;
        let lo: u8 = b & 0x0f;
        proof {
            assert(hi < 16 && lo < 16) by (bit_vector)
                requires
                    hi == b >> 4 && lo == b & 0x0f,
            ;
        }
        v.push(hex_digit_char(hi));
        v.push(hex_digit_char(lo));
        i = i + 1;
    }
    proof {
        assert(data@.take(n as int) =~= data@);
    }
    string_of(v.as_slice())
}

fn hex_digit_char(d: u8) -> (r: char)
    requires
        d < 16,
    ensures
        r == hex_digit(d as int),
{
    if d < 10 {
        (48 + d) as char
    } else {
        (87 + d) as char
    }
}

/// Appends every byte of `src` to `dst`.
fn push_all(dst: &mut Vec<u8>, src: &[u8])
    ensures
        final (dst)@ == old(dst)@ + src@,
{
    let n = src.len();
    let mut i: usize = 0;
    while i < n
        invariant
            n == src@.len(),
            i <= n,
            dst@ == old(dst)@ + src@.take(i as int),
        decreases n - i,
    {
        dst.push(src[i]);
        i = i + 1;
        proof {
            assert(dst@ =~= old(dst)@ + src@.take(i as int));
        }
    }
    proof {
        assert(dst@ =~= old(dst)@ + src@);
    }
}

} // verus!
