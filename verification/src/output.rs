//! Verified numeric and timestamp rendering used by the text output:
//! thousands grouping, money formatting from cents, and the cache
//! timestamp. The surrounding human-readable layout is assembled by the
//! application crate from these pieces.

use vstd::prelude::*;
use vstd::string::StringExecFns;

use crate::text::{dec_chars, digit_char, string_of, u64_to_chars};

verus! {

/// `digits` with a comma inserted before every group of three from the
/// right.
pub open spec fn spec_grouped(digits: Seq<char>) -> Seq<char>
    decreases digits.len(),
{
    if digits.len() <= 3 {
        digits
    } else {
        spec_grouped(digits.take(digits.len() - 3)) + seq![','] + digits.skip(digits.len() - 3)
    }
}

fn group_digits(digits: &[char]) -> (r: Vec<char>)
    ensures
        r@ == spec_grouped(digits@),
    decreases digits@.len(),
{
    let n = digits.len();
    if n <= 3 {
        let mut r: Vec<char> = Vec::new();
        let mut i: usize = 0;
        while i < n
            invariant
                n == digits@.len(),
                i <= n,
                r@ == digits@.take(i as int),
            decreases n - i,
        {
            r.push(digits[i]);
            i = i + 1;
            proof {
                assert(r@ =~= digits@.take(i as int));
            }
        }
        proof {
            assert(digits@.take(n as int) =~= digits@);
        }
        r
    } else {
        let mut head: Vec<char> = Vec::new();
        let cut = n - 3;
        let mut i: usize = 0;
        while i < cut
            invariant
                cut <= n == digits@.len(),
                i <= cut,
                head@ == digits@.take(i as int).take(i as int),
                head@ == digits@.subrange(0, i as int),
            decreases cut - i,
        {
            head.push(digits[i]);
            i = i + 1;
            proof {
                assert(head@ =~= digits@.subrange(0, i as int));
                assert(head@ =~= digits@.take(i as int).take(i as int));
            }
        }
        proof {
            assert(head@ =~= digits@.take(cut as int));
        }
        let mut r = group_digits(head.as_slice());
        r.push(',');
        let mut j: usize = cut;
        while j < n
            invariant
                cut <= j <= n,
                n == digits@.len(),
                r@ == spec_grouped(digits@.take(cut as int)) + seq![','] + digits@.subrange(
                    cut as int,
                    j as int,
                ),
            decreases n - j,
        {
            r.push(digits[j]);
            j = j + 1;
            proof {
                assert(r@ =~= spec_grouped(digits@.take(cut as int)) + seq![',']
                    + digits@.subrange(cut as int, j as int));
            }
        }
        proof {
            assert(digits@.subrange(cut as int, n as int) =~= digits@.skip(cut as int));
            assert(r@ =~= spec_grouped(digits@));
        }
        r
    }
}

/// A count rendered with thousands separators: 42328 becomes "42,328".
pub fn format_number(n: u32) -> (r: String)
    ensures
        r@ == spec_grouped(dec_chars(n as int)),
{
    let digits = crate::text::u32_to_chars(n);
    let grouped = group_digits(digits.as_slice());
    string_of(grouped.as_slice())
}

/// An amount of cents rendered as a plain decimal with two fraction digits:
/// 1999 becomes "19.99".
pub open spec fn spec_format_cents(cents: int) -> Seq<char> {
    dec_chars(cents / 100) + seq!['.', digit_char((cents / 10) % 10), digit_char(cents % 10)]
}

pub fn format_cents(cents: u64) -> (r: String)
    ensures
        r@ == spec_format_cents(cents as int),
{
    let mut v = u64_to_chars(cents / 100);
    v.push('.');
    let tens: u8 = ((cents / 10) % 10) as u8;
    let ones: u8 = (cents % 10) as u8;
    v.push((48 + tens) as char);
    v.push((48 + ones) as char);
    proof {
        assert(v@ =~= spec_format_cents(cents as int));
    }
    string_of(v.as_slice())
}

pub open spec fn spec_is_leap(y: int) -> bool {
    y % 4 == 0 && (y % 100 != 0 || y % 400 == 0)
}

pub open spec fn spec_days_in_year(y: int) -> int {
    if spec_is_leap(y) {
        366
    } else {
        365
    }
}

/// Civil year and day-of-year reached by walking whole years from `(d, y)`.
pub open spec fn spec_year_day(d: int, y: int) -> (int, int)
    decreases d,
{
    if d < spec_days_in_year(y) || d < 0 {
        (y, d)
    } else {
        spec_year_day(d - spec_days_in_year(y), y + 1)
    }
}

pub open spec fn spec_month_len(m: int, leap: bool) -> int {
    if m == 1 {
        if leap {
            29
        } else {
            28
        }
    } else if m == 3 || m == 5 || m == 8 || m == 10 {
        30
    } else {
        31
    }
}

/// Month (0-based) and day-of-month reached by walking whole months from
/// `(d, m)` within one year.
pub open spec fn spec_month_day(d: int, m: int, leap: bool) -> (int, int)
    decreases 12 - m,
{
    if m >= 11 || d < spec_month_len(m, leap) {
        (m, d)
    } else {
        spec_month_day(d - spec_month_len(m, leap), m + 1, leap)
    }
}

/// `digits` left-padded with zeros to `w` characters.
pub open spec fn spec_zero_pad(digits: Seq<char>, w: int) -> Seq<char>
    decreases w - digits.len(),
{
    if digits.len() >= w {
        digits
    } else {
        spec_zero_pad(seq!['0'] + digits, w)
    }
}

fn zero_pad(digits: Vec<char>, w: usize) -> (r: Vec<char>)
    ensures
        r@ == spec_zero_pad(digits@, w as int),
    decreases w - digits@.len(),
{
    if digits.len() >= w {
        digits
    } else {
        let mut padded: Vec<char> = Vec::new();
        padded.push('0');
        let n = digits.len();
        let mut i: usize = 0;
        while i < n
            invariant
                n == digits@.len(),
                i <= n,
                padded@ == seq!['0'] + digits@.take(i as int),
            decreases n - i,
        {
            padded.push(digits[i]);
            i = i + 1;
            proof {
                assert(padded@ =~= seq!['0'] + digits@.take(i as int));
            }
        }
        proof {
            assert(padded@ =~= seq!['0'] + digits@);
        }
        zero_pad(padded, w)
    }
}

/// The timestamp rendering: zero-padded "YYYY-MM-DD HH:MM UTC" computed
/// from whole seconds since the epoch, proleptic Gregorian, in UTC.
pub open spec fn spec_format_cached_at(secs: int) -> Seq<char> {
    let days = secs / 86400;
    let rem = secs % 86400;
    let hours = rem / 3600;
    let minutes = (rem % 3600) / 60;
    let yd = spec_year_day(days, 1970);
    let md = spec_month_day(yd.1, 0, spec_is_leap(yd.0));
    spec_zero_pad(dec_chars(yd.0), 4) + seq!['-'] + spec_zero_pad(dec_chars(md.0 + 1), 2) + seq![
        '-',
    ] + spec_zero_pad(dec_chars(md.1 + 1), 2) + seq![' '] + spec_zero_pad(dec_chars(hours), 2)
        + seq![':'] + spec_zero_pad(dec_chars(minutes), 2) + " UTC"@
}

/// Render the moment an artifact was cached, from whole seconds since the
/// epoch, as zero-padded "YYYY-MM-DD HH:MM UTC".
pub fn format_cached_at(secs: u64) -> (r: String)
    ensures
        r@ == spec_format_cached_at(secs as int),
{
    let days0: u64 = secs / 86400;
    let rem: u64 = secs % 86400;
    let hours: u64 = rem / 3600;
    let minutes: u64 = (rem % 3600) / 60;
    let mut y: u64 = 1970;
    let mut d: u64 = days0;
    while d >= days_in_year(y)
        invariant
            spec_year_day(days0 as int, 1970) == spec_year_day(d as int, y as int),
            1970 <= y,
            y + d <= 1970 + days0,
            days0 <= 213503982334601,
            d <= days0,
        decreases d,
    {
        d = d - days_in_year(y);
        y = y + 1;
    }
    let leap = is_leap(y);
    let mut m: u64 = 0;
    while !(m >= 11 || d < month_len(m, leap))
        invariant
            spec_month_day(spec_year_day(days0 as int, 1970).1, 0, spec_is_leap(
                spec_year_day(days0 as int, 1970).0,
            )) == spec_month_day(d as int, m as int, leap),
            leap == spec_is_leap(spec_year_day(days0 as int, 1970).0),
            spec_year_day(days0 as int, 1970).0 == y as int,
            m <= 11,
            d <= days0,
            days0 <= 213503982334601,
        decreases 12 - m,
    {
        d = d - month_len(m, leap);
        m = m + 1;
    }
    let mut out = zero_pad(u64_to_chars(y), 4);
    out.push('-');
    let mm = zero_pad(u64_to_chars(m + 1), 2);
    let mut out = push_all_chars(out, mm.as_slice());
    out.push('-');
    let dd = zero_pad(u64_to_chars(d + 1), 2);
    let mut out = push_all_chars(out, dd.as_slice());
    out.push(' ');
    let hh = zero_pad(u64_to_chars(hours), 2);
    let mut out = push_all_chars(out, hh.as_slice());
    out.push(':');
    let mi = zero_pad(u64_to_chars(minutes), 2);
    let mut out = push_all_chars(out, mi.as_slice());
    let mut s = string_of(out.as_slice());
    s.append(" UTC");
    proof {
        assert(s@ =~= spec_format_cached_at(secs as int));
    }
    s
}

fn push_all_chars(v: Vec<char>, src: &[char]) -> (r: Vec<char>)
    ensures
        r@ == v@ + src@,
{
    let mut v = v;
    let n = src.len();
    let ghost v0 = v@;
    let mut i: usize = 0;
    while i < n
        invariant
            n == src@.len(),
            i <= n,
            v@ == v0 + src@.take(i as int),
        decreases n - i,
    {
        v.push(src[i]);
        i = i + 1;
        proof {
            assert(v@ =~= v0 + src@.take(i as int));
        }
    }
    proof {
        assert(v@ =~= v0 + src@);
    }
    v
}

fn is_leap(y: u64) -> (r: bool)
    ensures
        r == spec_is_leap(y as int),
{
    y % 4 == 0 && (y % 100 != 0 || y % 400 == 0)
}

fn days_in_year(y: u64) -> (r: u64)
    ensures
        r == spec_days_in_year(y as int),
{
    if is_leap(y) {
        366
    } else {
        365
    }
}

fn month_len(m: u64, leap: bool) -> (r: u64)
    ensures
        r == spec_month_len(m as int, leap),
{
    if m == 1 {
        if leap {
            29
        } else {
            28
        }
    } else if m == 3 || m == 5 || m == 8 || m == 10 {
        30
    } else {
        31
    }
}

} // verus!
