//! Locale-aware price normalization.
//!
//! Prices are handled as non-negative integer cents (hundredths of the
//! currency unit), so "19.99" parses to 1999. A price string first has every
//! character but digits, `.` and `,` dropped; the surviving separators are
//! then disambiguated: when both appear, the later one is the decimal
//! separator; a lone comma is a thousands separator exactly when three digits
//! follow the last comma, and a decimal separator otherwise.

use vstd::prelude::*;

use crate::text::{
    chars_of, digits_of, digits_to_u64, digits_value, is_digit, is_digit_char, digit_val,
    lemma_digits_of_digits, lemma_digits_value_nonneg,
};

verus! {

pub open spec fn keep_price_char(c: char) -> bool {
    is_digit_char(c) || c == '.' || c == ','
}

/// The characters of `s` that survive price cleaning, in order.
pub open spec fn kept_price(s: Seq<char>) -> Seq<char>
    decreases s.len(),
{
    if s.len() == 0 {
        Seq::empty()
    } else if keep_price_char(s.last()) {
        kept_price(s.drop_last()).push(s.last())
    } else {
        kept_price(s.drop_last())
    }
}

pub open spec fn count_char(s: Seq<char>, c: char) -> int
    decreases s.len(),
{
    if s.len() == 0 {
        0
    } else {
        count_char(s.drop_last(), c) + if s.last() == c {
            1int
        } else {
            0int
        }
    }
}

/// Index of the last occurrence of `c` in `s`, or -1.
pub open spec fn last_idx(s: Seq<char>, c: char) -> int
    decreases s.len(),
{
    if s.len() == 0 {
        -1
    } else if s.last() == c {
        s.len() - 1
    } else {
        last_idx(s.drop_last(), c)
    }
}

/// Cents contributed by the fraction digits: the first two digits after the
/// decimal separator, the second taken as zero when absent. Further digits
/// are ignored; prices carry at most two.
pub open spec fn frac_cents(fr: Seq<char>) -> int {
    if fr.len() == 0 {
        0
    } else if fr.len() == 1 {
        digit_val(fr[0]) * 10
    } else {
        digit_val(fr[0]) * 10 + digit_val(fr[1])
    }
}

/// Value in cents of the cleaned string `k` read with its decimal separator
/// at position `dpos` (`dpos == k.len()` when there is none). Thousands
/// separators are ignored by reading digits only.
pub open spec fn cents_at(k: Seq<char>, dpos: int) -> int {
    digits_value(digits_of(k.take(dpos))) * 100 + if dpos >= k.len() {
        0int
    } else {
        frac_cents(digits_of(k.skip(dpos + 1)))
    }
}

/// The normalized value, in cents, of a price string, or `None` where the
/// string does not denote one number: nothing survives cleaning, no digit
/// survives, or a separator chosen as the thousands or decimal separator
/// occurs in a way that leaves the digit string ambiguous (a second decimal
/// separator).
pub open spec fn spec_price_value(s: Seq<char>) -> Option<int> {
    let k = kept_price(s);
    let nd = count_char(k, '.');
    let nc = count_char(k, ',');
    if k.len() == 0 {
        None
    } else if nd > 0 && nc > 0 {
        if last_idx(k, ',') > last_idx(k, '.') {
            if nc == 1 && digits_of(k).len() > 0 {
                Some(cents_at(k, last_idx(k, ',')))
            } else {
                None
            }
        } else {
            if nd == 1 && digits_of(k).len() > 0 {
                Some(cents_at(k, last_idx(k, '.')))
            } else {
                None
            }
        }
    } else if nc > 0 {
        if k.len() - 1 - last_idx(k, ',') == 3 {
            Some(digits_value(digits_of(k)) * 100)
        } else if nc == 1 && digits_of(k).len() > 0 {
            Some(cents_at(k, last_idx(k, ',')))
        } else {
            None
        }
    } else if nd > 0 {
        if nd == 1 && digits_of(k).len() > 0 {
            Some(cents_at(k, last_idx(k, '.')))
        } else {
            None
        }
    } else {
        Some(digits_value(digits_of(k)) * 100)
    }
}

/// A value in cents computed over digit strings is never negative.
pub proof fn lemma_cents_at_nonneg(k: Seq<char>, dpos: int)
    requires
        0 <= dpos <= k.len(),
    ensures
        cents_at(k, dpos) >= 0,
{
    lemma_digits_of_digits(k.take(dpos));
    lemma_digits_value_nonneg(digits_of(k.take(dpos)));
    if dpos < k.len() {
        let fr = digits_of(k.skip(dpos + 1));
        lemma_digits_of_digits(k.skip(dpos + 1));
        if fr.len() == 1 {
            assert(is_digit_char(fr[0]));
        } else if fr.len() >= 2 {
            assert(is_digit_char(fr[0]));
            assert(is_digit_char(fr[1]));
        }
    }
}

/// Whether `t` is a plain decimal numeral: only digits and at most one
/// dot, with at least one digit.
pub open spec fn is_plain_decimal(t: Seq<char>) -> bool {
    &&& forall|k: int| 0 <= k < t.len() ==> (is_digit_char(#[trigger] t[k]) || t[k] == '.')
    &&& count_char(t, '.') <= 1
    &&& digits_of(t).len() > 0
}

/// The value of a plain decimal numeral, in hundredths.
pub open spec fn spec_decimal_value(t: Seq<char>) -> Option<int> {
    if is_plain_decimal(t) {
        Some(
            cents_at(
                t,
                if count_char(t, '.') == 1 {
                    last_idx(t, '.')
                } else {
                    t.len() as int
                },
            ),
        )
    } else {
        None
    }
}

/// A character that occurs at all has a last occurrence in bounds.
pub proof fn lemma_count_last_idx(s: Seq<char>, c: char)
    ensures
        count_char(s, c) > 0 ==> 0 <= last_idx(s, c) < s.len(),
    decreases s.len(),
{
    if s.len() > 0 && s.last() != c {
        lemma_count_last_idx(s.drop_last(), c);
    }
}

/// A plain decimal never denotes a negative value.
pub proof fn lemma_decimal_value_nonneg(t: Seq<char>)
    ensures
        spec_decimal_value(t) matches Some(v) ==> v >= 0,
{
    if is_plain_decimal(t) {
        if count_char(t, '.') == 1 {
            lemma_count_last_idx(t, '.');
            lemma_cents_at_nonneg(t, last_idx(t, '.'));
        } else {
            lemma_cents_at_nonneg(t, t.len() as int);
        }
    }
}

/// Parse a plain decimal numeral ("4.8") to hundredths (480). `None` for
/// anything else, or for a value beyond `u64::MAX` hundredths.
pub fn parse_decimal_hundredths(s: &[char]) -> (r: Option<u64>)
    ensures
        match spec_decimal_value(s@) {
            Option::None => r is None,
            Option::Some(v) => if v <= u64::MAX {
                r == Some(v as u64)
            } else {
                r is None
            },
        },
{
    let n = s.len();
    let mut i: usize = 0;
    while i < n
        invariant
            n == s@.len(),
            i <= n,
            forall|k: int| 0 <= k < i ==> (is_digit_char(#[trigger] s@[k]) || s@[k] == '.'),
        decreases n - i,
    {
        if !(is_digit(s[i]) || s[i] == '.') {
            return None;
        }
        i = i + 1;
    }
    let (nd, ld) = scan_sep(s, '.');
    let all = collect_digits(s, 0, n);
    proof {
        assert(s@.subrange(0, n as int) =~= s@);
    }
    if nd > 1 || all.len() == 0 {
        return None;
    }
    let c = if nd == 1 {
        let dpos = ld.unwrap();
        cents_from(s, dpos)
    } else {
        whole_cents(all.as_slice(), Ghost(s@))
    };
    proof {
        if nd == 0 {
            assert(cents_at(s@, s@.len() as int) == digits_value(digits_of(s@.take(s@.len() as int)))
                * 100);
            assert(s@.take(s@.len() as int) =~= s@);
            lemma_cents_at_nonneg(s@, s@.len() as int);
        } else {
            lemma_cents_at_nonneg(s@, last_idx(s@, '.'));
        }
    }
    c
}

/// Parse a price string to integer cents, handling both US format
/// ("1,234.56") and European format ("1.234,56").
pub fn parse_price_str(s: &str) -> (r: Option<u64>)
    ensures
        match spec_price_value(s@) {
            Option::None => r is None,
            Option::Some(v) => if v <= u64::MAX {
                r == Some(v as u64)
            } else {
                r is None
            },
        },
{
    let cs = chars_of(s);
    parse_price_chars(cs.as_slice())
}

/// As `parse_price_str`, over a character slice.
pub fn parse_price_chars(s: &[char]) -> (r: Option<u64>)
    ensures
        match spec_price_value(s@) {
            Option::None => r is None,
            Option::Some(v) => if v <= u64::MAX {
                r == Some(v as u64)
            } else {
                r is None
            },
        },
{
    let k = collect_kept(s);
    if k.len() == 0 {
        return None;
    }
    let kl = k.len();
    let (nd, ld) = scan_sep(k.as_slice(), '.');
    let (nc, lc) = scan_sep(k.as_slice(), ',');
    let all_digits = collect_digits(k.as_slice(), 0, kl);
    proof {
        assert(k@.subrange(0, kl as int) =~= k@);
    }
    if nd > 0 && nc > 0 {
        let ldot = ld.unwrap();
        let lcomma = lc.unwrap();
        if lcomma > ldot {
            if nc == 1 && all_digits.len() > 0 {
                cents_from(k.as_slice(), lcomma)
            } else {
                None
            }
        } else {
            if nd == 1 && all_digits.len() > 0 {
                cents_from(k.as_slice(), ldot)
            } else {
                None
            }
        }
    } else if nc > 0 {
        let lcomma = lc.unwrap();
        if kl - 1 - lcomma == 3 {
            whole_cents(all_digits.as_slice(), Ghost(k@))
        } else if nc == 1 && all_digits.len() > 0 {
            cents_from(k.as_slice(), lcomma)
        } else {
            None
        }
    } else if nd > 0 {
        let ldot = ld.unwrap();
        if nd == 1 && all_digits.len() > 0 {
            cents_from(k.as_slice(), ldot)
        } else {
            None
        }
    } else {
        whole_cents(all_digits.as_slice(), Ghost(k@))
    }
}

/// Cents of a separator-free digit string: its value times one hundred.
fn whole_cents(d: &[char], ghost_k: Ghost<Seq<char>>) -> (r: Option<u64>)
    requires
        d@ == digits_of(ghost_k@),
    ensures
        ({
            let v = digits_value(digits_of(ghost_k@)) * 100;
            if v <= u64::MAX {
                r == Some(v as u64)
            } else {
                r is None
            }
        }),
{
    proof {
        lemma_digits_of_digits(ghost_k@);
        lemma_digits_value_nonneg(d@);
    }
    let iv = match digits_to_u64(d) {
        Some(v) => v,
        None => {
            return None;
        },
    };
    match iv.checked_mul(100) {
        Some(v) => Some(v),
        None => None,
    }
}

/// Cents of the cleaned string `k` with its decimal separator at `dpos`.
fn cents_from(k: &[char], dpos: usize) -> (r: Option<u64>)
    requires
        dpos < k@.len(),
    ensures
        ({
            let v = cents_at(k@, dpos as int);
            if v <= u64::MAX {
                r == Some(v as u64)
            } else {
                r is None
            }
        }),
{
    let kl = k.len();
    let int_digits = collect_digits(k, 0, dpos);
    let frac_digits = collect_digits(k, dpos + 1, kl);
    proof {
        assert(k@.subrange(0, dpos as int) =~= k@.take(dpos as int));
        assert(k@.subrange(dpos + 1, kl as int) =~= k@.skip(dpos + 1));
        lemma_digits_of_digits(k@.take(dpos as int));
        lemma_digits_of_digits(k@.skip(dpos + 1));
        lemma_digits_value_nonneg(int_digits@);
    }
    let f: u64 = if frac_digits.len() == 0 {
        0
    } else if frac_digits.len() == 1 {
        proof {
            assert(is_digit_char(frac_digits@[0]));
        }
        (((frac_digits[0] as u32) - 48) as u64) * 10
    } else {
        proof {
            assert(is_digit_char(frac_digits@[0]));
            assert(is_digit_char(frac_digits@[1]));
        }
        (((frac_digits[0] as u32) - 48) as u64) * 10 + (((frac_digits[1] as u32) - 48) as u64)
    };
    let iv = match digits_to_u64(int_digits.as_slice()) {
        Some(v) => v,
        None => {
            return None;
        },
    };
    let scaled = match iv.checked_mul(100) {
        Some(v) => v,
        None => {
            return None;
        },
    };
    match scaled.checked_add(f) {
        Some(v) => Some(v),
        None => None,
    }
}

/// The characters surviving price cleaning, in order.
fn collect_kept(s: &[char]) -> (r: Vec<char>)
    ensures
        r@ == kept_price(s@),
{
    let n = s.len();
    let mut r: Vec<char> = Vec::new();
    let mut i: usize = 0;
    while i < n
        invariant
            n == s@.len(),
            i <= n,
            r@ == kept_price(s@.take(i as int)),
        decreases n - i,
    {
        proof {
            assert(s@.take(i + 1).drop_last() =~= s@.take(i as int));
        }
        let c = s[i];
        if is_digit(c) || c == '.' || c == ',' {
            r.push(c);
        }
        i = i + 1;
    }
    proof {
        assert(s@.take(n as int) =~= s@);
    }
    r
}

/// Occurrence count and last index of `c` in `k`.
fn scan_sep(k: &[char], c: char) -> (r: (usize, Option<usize>))
    ensures
        r.0 as int == count_char(k@, c),
        r.1 is Some <==> count_char(k@, c) > 0,
        r.1 matches Some(p) ==> p as int == last_idx(k@, c) && p < k@.len(),
{
    let n = k.len();
    let mut count: usize = 0;
    let mut last: Option<usize> = None;
    let mut i: usize = 0;
    while i < n
        invariant
            n == k@.len(),
            i <= n,
            count as int == count_char(k@.take(i as int), c),
            count <= i,
            last is Some <==> count_char(k@.take(i as int), c) > 0,
            last matches Some(p) ==> p as int == last_idx(k@.take(i as int), c) && p < i,
        decreases n - i,
    {
        proof {
            assert(k@.take(i + 1).drop_last() =~= k@.take(i as int));
        }
        if k[i] == c {
            count = count + 1;
            last = Some(i);
        }
        i = i + 1;
    }
    proof {
        assert(k@.take(n as int) =~= k@);
    }
    (count, last)
}

/// The digits of `v[from..to]`, in order.
fn collect_digits(v: &[char], from: usize, to: usize) -> (r: Vec<char>)
    requires
        from <= to <= v@.len(),
    ensures
        r@ == digits_of(v@.subrange(from as int, to as int)),
        forall|j: int| 0 <= j < r@.len() ==> is_digit_char(#[trigger] r@[j]),
{
    let mut r: Vec<char> = Vec::new();
    let mut i: usize = from;
    while i < to
        invariant
            from <= i <= to <= v@.len(),
            r@ == digits_of(v@.subrange(from as int, i as int)),
            forall|j: int| 0 <= j < r@.len() ==> is_digit_char(#[trigger] r@[j]),
        decreases to - i,
    {
        proof {
            assert(v@.subrange(from as int, i + 1).drop_last() =~= v@.subrange(
                from as int,
                i as int,
            ));
        }
        if is_digit(v[i]) {
            r.push(v[i]);
        }
        i = i + 1;
    }
    r
}

} // verus!
