//! Character-level text utilities shared by the parsers: conversion between
//! `String` and character vectors, trimming, case folding, substring search,
//! and digit-string evaluation.

use vstd::prelude::*;
use vstd::string::StrSliceExecFns;

verus! {

/// ASCII whitespace, the only whitespace the site's markup produces in
/// the fields this library trims.
pub open spec fn is_space_char(c: char) -> bool {
    c == ' ' || c == '\t' || c == '\n' || c == '\r'
}

pub open spec fn is_digit_char(c: char) -> bool {
    48 <= c as u32 <= 57
}

pub open spec fn digit_val(c: char) -> int {
    c as u32 - 48
}

/// ASCII-only case folding; characters outside 'A'..='Z' are unchanged.
pub open spec fn lower_char(c: char) -> char {
    if 65 <= c as u32 <= 90 {
        ((c as u32 + 32) as u8) as char
    } else {
        c
    }
}

pub open spec fn spec_lower(s: Seq<char>) -> Seq<char> {
    Seq::new(s.len(), |i: int| lower_char(s[i]))
}

/// Leading whitespace dropped.
pub open spec fn spec_trim_front(s: Seq<char>) -> Seq<char>
    decreases s.len(),
{
    if s.len() > 0 && is_space_char(s[0]) {
        spec_trim_front(s.drop_first())
    } else {
        s
    }
}

/// Trailing whitespace dropped.
pub open spec fn spec_trim_back(s: Seq<char>) -> Seq<char>
    decreases s.len(),
{
    if s.len() > 0 && is_space_char(s.last()) {
        spec_trim_back(s.drop_last())
    } else {
        s
    }
}

pub open spec fn spec_trim(s: Seq<char>) -> Seq<char> {
    spec_trim_back(spec_trim_front(s))
}

/// The needle `n` occurs in `h` starting at position `i`.
pub open spec fn matches_at(h: Seq<char>, n: Seq<char>, i: int) -> bool {
    0 <= i && i + n.len() <= h.len() && h.subrange(i, i + n.len()) == n
}

pub open spec fn spec_contains(h: Seq<char>, n: Seq<char>) -> bool {
    exists|i: int| matches_at(h, n, i)
}

pub open spec fn spec_starts_with(h: Seq<char>, n: Seq<char>) -> bool {
    n.len() <= h.len() && h.subrange(0, n.len() as int) == n
}

/// The digits of `s`, in order, with every other character dropped.
pub open spec fn digits_of(s: Seq<char>) -> Seq<char>
    decreases s.len(),
{
    if s.len() == 0 {
        Seq::empty()
    } else if is_digit_char(s.last()) {
        digits_of(s.drop_last()).push(s.last())
    } else {
        digits_of(s.drop_last())
    }
}

/// The value of a digit string read in base ten; non-digits contribute
/// their (meaningless) digit value, so callers pass digit-only sequences.
pub open spec fn digits_value(s: Seq<char>) -> int
    decreases s.len(),
{
    if s.len() == 0 {
        0
    } else {
        digits_value(s.drop_last()) * 10 + digit_val(s.last())
    }
}

/// The digit character for one value 0..=9.
pub open spec fn digit_char(d: int) -> char {
    ((48 + d) as u8) as char
}

/// Decimal rendering of a number, most significant digit first.
pub open spec fn dec_chars(n: int) -> Seq<char>
    decreases n,
{
    if n < 10 {
        seq![digit_char(if n >= 0 { n } else { 0 })]
    } else {
        dec_chars(n / 10).push(digit_char(n % 10))
    }
}

/// ASCII-only upper-casing of one character.
pub open spec fn upper_char(c: char) -> char {
    if 97 <= c as u32 <= 122 {
        ((c as u32 - 32) as u8) as char
    } else {
        c
    }
}

pub open spec fn spec_upper(s: Seq<char>) -> Seq<char> {
    Seq::new(s.len(), |i: int| upper_char(s[i]))
}

/// The decimal digits of `n`, as characters.
pub fn u32_to_chars(n: u32) -> (v: Vec<char>)
    ensures
        v@ == dec_chars(n as int),
    decreases n,
{
    if n < 10 {
        let c: char = ((48 + n as u8)) as char;
        let mut v: Vec<char> = Vec::new();
        v.push(c);
        proof {
            assert(v@ =~= seq![digit_char(n as int)]);
        }
        v
    } else {
        let mut v = u32_to_chars(n / 10);
        let d: u8 = (n % 10) as u8;
        v.push((48 + d) as char);
        v
    }
}

/// The decimal digits of `n`, as characters.
pub fn u64_to_chars(n: u64) -> (v: Vec<char>)
    ensures
        v@ == dec_chars(n as int),
    decreases n,
{
    if n < 10 {
        let c: char = ((48 + n as u8)) as char;
        let mut v: Vec<char> = Vec::new();
        v.push(c);
        proof {
            assert(v@ =~= seq![digit_char(n as int)]);
        }
        v
    } else {
        let mut v = u64_to_chars(n / 10);
        let d: u8 = (n % 10) as u8;
        v.push((48 + d) as char);
        v
    }
}

/// The decimal rendering of `n` as a string.
pub fn u32_to_string(n: u32) -> (r: String)
    ensures
        r@ == dec_chars(n as int),
{
    let v = u32_to_chars(n);
    string_of(v.as_slice())
}

/// ASCII-uppercased copy of `s`.
pub fn upper_chars(s: &[char]) -> (r: Vec<char>)
    ensures
        r@ == spec_upper(s@),
{
    let n = s.len();
    let mut r: Vec<char> = Vec::new();
    let mut i: usize = 0;
    while i < n
        invariant
            n == s@.len(),
            i <= n,
            r@ == spec_upper(s@).subrange(0, i as int),
        decreases n - i,
    {
        let c = s[i];
        let code: u32 = c as u32;
        let uc = if 97 <= code && code <= 122 {
            ((code - 32) as u8) as char
        } else {
            c
        };
        r.push(uc);
        i = i + 1;
        proof {
            assert(r@ =~= spec_upper(s@).subrange(0, i as int));
        }
    }
    proof {
        assert(r@ =~= spec_upper(s@));
    }
    r
}

/// The characters of `s`, in order.
pub fn chars_of(s: &str) -> (v: Vec<char>)
    ensures
        v@ == s@,
{
    let n = s.unicode_len();
    let mut v: Vec<char> = Vec::new();
    let mut i: usize = 0;
    while i < n
        invariant
            n == s@.len(),
            i <= n,
            v@ == s@.subrange(0, i as int),
        decreases n - i,
    {
        v.push(s.get_char(i));
        i = i + 1;
        proof {
            assert(v@ =~= s@.subrange(0, i as int));
        }
    }
    proof {
        assert(v@ =~= s@);
    }
    v
}

/// Relies on `String::push`: appends one character to the string.
#[verifier::external_body]
fn push_char(s: &mut String, c: char)
    ensures
        final (s)@ == old(s)@.push(c),
{
    s.push(c);
}

/// A `String` holding exactly the given characters.
pub fn string_of(v: &[char]) -> (r: String)
    ensures
        r@ == v@,
{
    let mut r = String::new();
    let n = v.len();
    let mut i: usize = 0;
    while i < n
        invariant
            n == v@.len(),
            i <= n,
            r@ == v@.subrange(0, i as int),
        decreases n - i,
    {
        push_char(&mut r, v[i]);
        i = i + 1;
        proof {
            assert(r@ =~= v@.subrange(0, i as int));
        }
    }
    proof {
        assert(r@ =~= v@);
    }
    r
}

/// `s` with leading and trailing ASCII whitespace removed.
pub fn trim_chars(s: &[char]) -> (r: Vec<char>)
    ensures
        r@ == spec_trim(s@),
{
    let n = s.len();
    proof {
        assert(s@.subrange(0, n as int) =~= s@);
    }
    let mut a: usize = 0;
    while a < n && is_space(s[a])
        invariant
            n == s@.len(),
            a <= n,
            spec_trim_front(s@.subrange(a as int, n as int)) == spec_trim_front(s@),
        decreases n - a,
    {
        proof {
            assert(s@.subrange(a as int, n as int).drop_first() =~= s@.subrange(
                a as int + 1,
                n as int,
            ));
        }
        a = a + 1;
    }
    let mut b: usize = n;
    while b > a && is_space(s[b - 1])
        invariant
            n == s@.len(),
            a <= b <= n,
            spec_trim_front(s@.subrange(a as int, n as int)) == s@.subrange(a as int, n as int),
            spec_trim_back(s@.subrange(a as int, b as int)) == spec_trim(s@),
        decreases b,
    {
        proof {
            assert(s@.subrange(a as int, b as int).drop_last() =~= s@.subrange(
                a as int,
                b as int - 1,
            ));
        }
        b = b - 1;
    }
    let mut r: Vec<char> = Vec::new();
    let mut i: usize = a;
    while i < b
        invariant
            a <= i <= b <= n,
            n == s@.len(),
            r@ == s@.subrange(a as int, i as int),
        decreases b - i,
    {
        r.push(s[i]);
        i = i + 1;
        proof {
            assert(r@ =~= s@.subrange(a as int, i as int));
        }
    }
    proof {
        assert(r@ =~= s@.subrange(a as int, b as int));
    }
    r
}

pub fn is_space(c: char) -> (r: bool)
    ensures
        r == is_space_char(c),
{
    c == ' ' || c == '\t' || c == '\n' || c == '\r'
}

pub fn is_digit(c: char) -> (r: bool)
    ensures
        r == is_digit_char(c),
{
    let code: u32 = c as u32;
    48 <= code && code <= 57
}

/// ASCII-lowercased copy of `s`.
pub fn lower_chars(s: &[char]) -> (r: Vec<char>)
    ensures
        r@ == spec_lower(s@),
{
    let n = s.len();
    let mut r: Vec<char> = Vec::new();
    let mut i: usize = 0;
    while i < n
        invariant
            n == s@.len(),
            i <= n,
            r@ == spec_lower(s@).subrange(0, i as int),
        decreases n - i,
    {
        let c = s[i];
        let code: u32 = c as u32;
        let lc = if 65 <= code && code <= 90 {
            ((code + 32) as u8) as char
        } else {
            c
        };
        r.push(lc);
        i = i + 1;
        proof {
            assert(r@ =~= spec_lower(s@).subrange(0, i as int));
        }
    }
    proof {
        assert(r@ =~= spec_lower(s@));
    }
    r
}

/// Whether the needle occurs anywhere in the haystack.
pub fn contains_chars(h: &[char], n: &[char]) -> (r: bool)
    ensures
        r == spec_contains(h@, n@),
{
    let hl = h.len();
    let nl = n.len();
    if nl > hl {
        proof {
            assert(forall|i: int| !matches_at(h@, n@, i));
        }
        return false;
    }
    if nl == 0 {
        proof {
            assert(h@.subrange(0, 0) =~= n@);
            assert(matches_at(h@, n@, 0));
        }
        return true;
    }
    let mut i: usize = 0;
    while i <= hl - nl
        invariant
            1 <= nl <= hl,
            hl == h@.len(),
            nl == n@.len(),
            i <= hl - nl + 1,
            forall|k: int| 0 <= k < i ==> !matches_at(h@, n@, k),
        decreases hl - nl + 1 - i,
    {
        if matches_here(h, n, i) {
            return true;
        }
        i = i + 1;
    }
    false
}

/// Whether the needle occurs in the haystack starting at `i`.
fn matches_here(h: &[char], n: &[char], i: usize) -> (r: bool)
    requires
        i + n@.len() <= h@.len(),
    ensures
        r == matches_at(h@, n@, i as int),
{
    let hl = h.len();
    let nl = n.len();
    let mut j: usize = 0;
    while j < nl
        invariant
            hl == h@.len(),
            nl == n@.len(),
            i + nl <= hl,
            j <= nl,
            h@.subrange(i as int, i + j) == n@.subrange(0, j as int),
        decreases nl - j,
    {
        if h[i + j] != n[j] {
            proof {
                assert(h@.subrange(i as int, i + nl as int)[j as int] != n@[j as int]);
            }
            return false;
        }
        j = j + 1;
        proof {
            assert(h@.subrange(i as int, i + j) =~= n@.subrange(0, j as int));
        }
    }
    proof {
        assert(h@.subrange(i as int, i + nl) =~= n@);
        assert(n@.subrange(0, nl as int) =~= n@);
    }
    true
}

/// Position of the first occurrence of the needle in the haystack.
pub fn find_sub(h: &[char], n: &[char]) -> (r: Option<usize>)
    ensures
        r matches Some(i) ==> matches_at(h@, n@, i as int),
        r is None ==> !spec_contains(h@, n@),
{
    let hl = h.len();
    let nl = n.len();
    if nl > hl {
        proof {
            assert(forall|i: int| !matches_at(h@, n@, i));
        }
        return None;
    }
    if nl == 0 {
        proof {
            assert(h@.subrange(0, 0) =~= n@);
        }
        return Some(0);
    }
    let mut i: usize = 0;
    while i <= hl - nl
        invariant
            1 <= nl <= hl,
            hl == h@.len(),
            nl == n@.len(),
            i <= hl - nl + 1,
            forall|k: int| 0 <= k < i ==> !matches_at(h@, n@, k),
        decreases hl - nl + 1 - i,
    {
        if matches_here(h, n, i) {
            return Some(i);
        }
        i = i + 1;
    }
    None
}

/// Whether `s` is non-empty and wholly digits.
pub fn is_all_digits(s: &[char]) -> (r: bool)
    ensures
        r == all_digits(s@),
{
    let n = s.len();
    if n == 0 {
        return false;
    }
    let mut i: usize = 0;
    while i < n
        invariant
            n == s@.len(),
            i <= n,
            forall|k: int| 0 <= k < i ==> is_digit_char(#[trigger] s@[k]),
        decreases n - i,
    {
        if !is_digit(s[i]) {
            return false;
        }
        i = i + 1;
    }
    true
}

/// Whether `h` begins with `n`.
pub fn starts_with_chars(h: &[char], n: &[char]) -> (r: bool)
    ensures
        r == spec_starts_with(h@, n@),
{
    if n.len() > h.len() {
        return false;
    }
    matches_here(h, n, 0)
}

/// Whether the two character slices hold the same characters.
pub fn eq_chars(a: &[char], b: &[char]) -> (r: bool)
    ensures
        r == (a@ == b@),
{
    let al = a.len();
    if al != b.len() {
        return false;
    }
    let mut i: usize = 0;
    while i < al
        invariant
            al == a@.len() == b@.len(),
            i <= al,
            a@.subrange(0, i as int) == b@.subrange(0, i as int),
        decreases al - i,
    {
        if a[i] != b[i] {
            proof {
                assert(a@.subrange(0, al as int)[i as int] != b@.subrange(0, al as int)[i as int]);
                assert(a@.subrange(0, al as int) =~= a@);
                assert(b@.subrange(0, al as int) =~= b@);
            }
            return false;
        }
        i = i + 1;
        proof {
            assert(a@.subrange(0, i as int) =~= b@.subrange(0, i as int));
        }
    }
    proof {
        assert(a@.subrange(0, al as int) =~= a@);
        assert(b@.subrange(0, al as int) =~= b@);
    }
    true
}

/// Index of the first occurrence of `c` in `s`, or -1.
pub open spec fn first_idx(s: Seq<char>, c: char) -> int
    decreases s.len(),
{
    if s.len() == 0 {
        -1
    } else if s[0] == c {
        0
    } else {
        let r = first_idx(s.drop_first(), c);
        if r < 0 {
            -1
        } else {
            r + 1
        }
    }
}

/// First occurrence of `c` in `s` is in bounds when one exists.
pub proof fn lemma_first_idx_bounds(s: Seq<char>, c: char)
    ensures
        first_idx(s, c) >= 0 ==> 0 <= first_idx(s, c) < s.len() && s[first_idx(s, c)] == c,
        first_idx(s, c) >= 0 ==> forall|k: int| 0 <= k < first_idx(s, c) ==> s[k] != c,
        first_idx(s, c) < 0 ==> forall|k: int| 0 <= k < s.len() ==> s[k] != c,
    decreases s.len(),
{
    if s.len() > 0 && s[0] != c {
        let d = s.drop_first();
        lemma_first_idx_bounds(d, c);
        let r = first_idx(d, c);
        if r >= 0 {
            assert(first_idx(s, c) == r + 1);
            assert(s[r + 1] == d[r]);
            assert forall|k: int| 0 <= k < first_idx(s, c) implies s[k] != c by {
                if k >= 1 {
                    assert(s[k] == d[k - 1]);
                }
            }
        } else {
            assert forall|k: int| 0 <= k < s.len() implies s[k] != c by {
                if k >= 1 {
                    assert(s[k] == d[k - 1]);
                }
            }
        }
    }
}

/// Index of the first occurrence of `c`, when there is one.
pub fn find_char(s: &[char], c: char) -> (r: Option<usize>)
    ensures
        r matches Some(i) ==> i as int == first_idx(s@, c),
        r is Some <==> first_idx(s@, c) >= 0,
{
    let n = s.len();
    let mut i: usize = 0;
    while i < n
        invariant
            n == s@.len(),
            i <= n,
            forall|k: int| 0 <= k < i ==> s@[k] != c,
        decreases n - i,
    {
        if s[i] == c {
            proof {
                lemma_first_idx_bounds(s@, c);
                assert(s@[i as int] == c);
                assert(first_idx(s@, c) >= 0);
                assert(first_idx(s@, c) <= i as int);
                assert(first_idx(s@, c) >= i as int);
            }
            return Some(i);
        }
        i = i + 1;
    }
    proof {
        lemma_first_idx_bounds(s@, c);
    }
    None
}

/// `s` split on every occurrence of `sep`: one piece more than there are
/// separators, in order, separators not included.
pub open spec fn spec_split(s: Seq<char>, sep: char) -> Seq<Seq<char>>
    decreases s.len(),
{
    if s.len() == 0 {
        seq![Seq::empty()]
    } else if s[0] == sep {
        seq![Seq::<char>::empty()] + spec_split(s.drop_first(), sep)
    } else {
        let rest = spec_split(s.drop_first(), sep);
        rest.update(0, seq![s[0]] + rest[0])
    }
}

pub proof fn lemma_split_nonempty(s: Seq<char>, sep: char)
    ensures
        spec_split(s, sep).len() >= 1,
    decreases s.len(),
{
    if s.len() > 0 {
        lemma_split_nonempty(s.drop_first(), sep);
    }
}

/// `s` split on `sep`, as vectors.
pub fn split_chars(s: &[char], sep: char) -> (r: Vec<Vec<char>>)
    ensures
        r@.len() == spec_split(s@, sep).len(),
        forall|j: int| 0 <= j < r@.len() ==> (#[trigger] r@[j])@ == spec_split(s@, sep)[j],
{
    proof {
        assert(s@.skip(0) =~= s@);
    }
    split_chars_from(s, 0, sep)
}

fn split_chars_from(s: &[char], from: usize, sep: char) -> (r: Vec<Vec<char>>)
    requires
        from <= s@.len(),
    ensures
        r@.len() == spec_split(s@.skip(from as int), sep).len(),
        forall|j: int|
            0 <= j < r@.len() ==> (#[trigger] r@[j])@ == spec_split(s@.skip(from as int), sep)[j],
    decreases s@.len() - from,
{
    let n = s.len();
    if from == n {
        proof {
            assert(s@.skip(from as int) =~= Seq::<char>::empty());
        }
        let mut r: Vec<Vec<char>> = Vec::new();
        r.push(Vec::new());
        return r;
    }
    proof {
        assert(s@.skip(from as int).len() > 0);
        assert(s@.skip(from as int)[0] == s@[from as int]);
        assert(s@.skip(from as int).drop_first() =~= s@.skip(from as int + 1));
    }
    if s[from] == sep {
        let rest = split_chars_from(s, from + 1, sep);
        let mut r: Vec<Vec<char>> = Vec::new();
        r.push(Vec::new());
        let mut i: usize = 0;
        let rl = rest.len();
        let mut rest = rest;
        // Move the tail pieces over, keeping their order.
        let ghost target = spec_split(s@.skip(from as int), sep);
        proof {
            assert(target =~= seq![Seq::<char>::empty()] + spec_split(
                s@.skip(from as int + 1),
                sep,
            ));
        }
        let mut out: Vec<Vec<char>> = r;
        while i < rl
            invariant
                rl == rest@.len(),
                i <= rl,
                out@.len() == 1 + i,
                target.len() == 1 + rl,
                out@[0]@ == Seq::<char>::empty(),
                forall|j: int| 0 <= j < rest@.len() ==> (#[trigger] rest@[j])@ == target[j + 1],
                forall|j: int| 0 <= j < 1 + i ==> (#[trigger] out@[j])@ == target[j],
            decreases rl - i,
        {
            let piece = copy_piece(&rest, i);
            out.push(piece);
            i = i + 1;
        }
        out
    } else {
        let rest = split_chars_from(s, from + 1, sep);
        let ghost target = spec_split(s@.skip(from as int), sep);
        let ghost subrest = spec_split(s@.skip(from as int + 1), sep);
        proof {
            lemma_split_nonempty(s@.skip(from as int + 1), sep);
            assert(target =~= subrest.update(0, seq![s@[from as int]] + subrest[0]));
        }
        let mut rest = rest;
        let mut head: Vec<char> = Vec::new();
        head.push(s[from]);
        let old_first = copy_piece(&rest, 0);
        let mut new_first = head;
        let mut j: usize = 0;
        let ofl = old_first.len();
        while j < ofl
            invariant
                ofl == old_first@.len(),
                j <= ofl,
                new_first@ == seq![s@[from as int]] + old_first@.take(j as int),
            decreases ofl - j,
        {
            new_first.push(old_first[j]);
            j = j + 1;
            proof {
                assert(new_first@ =~= seq![s@[from as int]] + old_first@.take(j as int));
            }
        }
        proof {
            assert(old_first@.take(ofl as int) =~= old_first@);
        }
        rest.set(0, new_first);
        proof {
            assert(forall|k: int|
                0 <= k < rest@.len() ==> (#[trigger] rest@[k])@ == target[k]);
        }
        rest
    }
}

fn copy_piece(v: &Vec<Vec<char>>, i: usize) -> (r: Vec<char>)
    requires
        i < v@.len(),
    ensures
        r@ == v@[i as int]@,
{
    let piece = &v[i];
    let n = piece.len();
    let mut r: Vec<char> = Vec::new();
    let mut j: usize = 0;
    while j < n
        invariant
            n == piece@.len(),
            piece@ == v@[i as int]@,
            j <= n,
            r@ == piece@.take(j as int),
        decreases n - j,
    {
        r.push(piece[j]);
        j = j + 1;
        proof {
            assert(r@ =~= piece@.take(j as int));
        }
    }
    proof {
        assert(r@ =~= piece@);
    }
    r
}

/// Whether every character of `s` is a digit, and there is at least one.
pub open spec fn all_digits(s: Seq<char>) -> bool {
    s.len() > 0 && forall|k: int| 0 <= k < s.len() ==> is_digit_char(#[trigger] s[k])
}

/// The last piece of `pieces` that is non-empty and all digits.
pub open spec fn last_digit_piece(pieces: Seq<Seq<char>>) -> Option<Seq<char>>
    decreases pieces.len(),
{
    if pieces.len() == 0 {
        None
    } else if all_digits(pieces.last()) {
        Some(pieces.last())
    } else {
        last_digit_piece(pieces.drop_last())
    }
}

/// Whether two strings hold the same characters.
pub fn str_eq(a: &str, b: &str) -> (r: bool)
    ensures
        r == (a@ == b@),
{
    let ca = chars_of(a);
    let cb = chars_of(b);
    eq_chars(ca.as_slice(), cb.as_slice())
}

/// Whether the needle occurs anywhere in the haystack string.
pub fn str_contains(h: &str, n: &str) -> (r: bool)
    ensures
        r == spec_contains(h@, n@),
{
    let ch = chars_of(h);
    let cn = chars_of(n);
    contains_chars(ch.as_slice(), cn.as_slice())
}

/// Every character of `digits_of(s)` is a digit.
pub proof fn lemma_digits_of_digits(s: Seq<char>)
    ensures
        forall|k: int| 0 <= k < digits_of(s).len() ==> is_digit_char(#[trigger] digits_of(s)[k]),
    decreases s.len(),
{
    if s.len() > 0 {
        lemma_digits_of_digits(s.drop_last());
        let d = digits_of(s);
        let dp = digits_of(s.drop_last());
        assert forall|k: int| 0 <= k < d.len() implies is_digit_char(#[trigger] d[k]) by {
            if is_digit_char(s.last()) {
                assert(d == dp.push(s.last()));
                if k < dp.len() {
                    assert(d[k] == dp[k]);
                    assert(is_digit_char(dp[k]));
                } else {
                    assert(d[k] == s.last());
                }
            } else {
                assert(d == dp);
                assert(d[k] == dp[k]);
                assert(is_digit_char(dp[k]));
            }
        }
    }
}

/// Appending digits never decreases the value of a digit string.
proof fn lemma_digits_value_prefix_le(s: Seq<char>, i: int)
    requires
        0 <= i <= s.len(),
        forall|k: int| 0 <= k < s.len() ==> is_digit_char(#[trigger] s[k]),
    ensures
        digits_value(s.take(i)) <= digits_value(s),
    decreases s.len() - i,
{
    if i < s.len() {
        lemma_digits_value_prefix_le(s, i + 1);
        assert(s.take(i + 1).drop_last() =~= s.take(i));
        assert(digits_value(s.take(i + 1)) == digits_value(s.take(i)) * 10 + digit_val(
            s[i],
        ));
        assert(digits_value(s.take(i)) >= 0) by {
            assert(forall|k: int| 0 <= k < s.take(i).len() ==> is_digit_char(#[trigger] s.take(i)[k]));
            lemma_digits_value_nonneg(s.take(i));
        }
    } else {
        assert(s.take(i) =~= s);
    }
}

pub proof fn lemma_digits_value_nonneg(s: Seq<char>)
    requires
        forall|k: int| 0 <= k < s.len() ==> is_digit_char(#[trigger] s[k]),
    ensures
        digits_value(s) >= 0,
    decreases s.len(),
{
    if s.len() > 0 {
        assert(forall|k: int|
            0 <= k < s.drop_last().len() ==> is_digit_char(#[trigger] s.drop_last()[k]));
        lemma_digits_value_nonneg(s.drop_last());
    }
}

/// Base-ten value of a digit-only character slice; `None` when it does not
/// fit in a `u64`.
pub fn digits_to_u64(d: &[char]) -> (r: Option<u64>)
    requires
        forall|k: int| 0 <= k < d@.len() ==> is_digit_char(#[trigger] d@[k]),
    ensures
        if digits_value(d@) > u64::MAX {
            r is None
        } else {
            r == Some(digits_value(d@) as u64)
        },
{
    let dn = d.len();
    let mut acc: u64 = 0;
    let mut j: usize = 0;
    while j < dn
        invariant
            dn == d@.len(),
            j <= dn,
            acc == digits_value(d@.take(j as int)),
            forall|k: int| 0 <= k < d@.len() ==> is_digit_char(#[trigger] d@[k]),
        decreases dn - j,
    {
        proof {
            assert(is_digit_char(d@[j as int]));
            assert(d@.take(j + 1).drop_last() =~= d@.take(j as int));
            assert(digits_value(d@.take(j + 1)) == digits_value(d@.take(j as int)) * 10 + digit_val(
                d@[j as int],
            ));
        }
        let dig: u64 = ((d[j] as u32) - 48) as u64;
        let shifted = match acc.checked_mul(10) {
            Some(v) => v,
            None => {
                proof {
                    lemma_digits_value_prefix_le(d@, j + 1);
                    assert(digits_value(d@.take(j + 1)) > u64::MAX);
                }
                return None;
            },
        };
        acc = match shifted.checked_add(dig) {
            Some(v) => v,
            None => {
                proof {
                    lemma_digits_value_prefix_le(d@, j + 1);
                    assert(digits_value(d@.take(j + 1)) > u64::MAX);
                }
                return None;
            },
        };
        j = j + 1;
    }
    proof {
        assert(d@.take(dn as int) =~= d@);
        lemma_digits_value_nonneg(d@);
    }
    Some(acc)
}

/// The value of the digits of `s`, as the site prints counts ("42,328"):
/// every non-digit is dropped first; `None` when no digit occurs or the
/// value exceeds `u32::MAX`.
pub fn parse_digits_u32(s: &[char]) -> (r: Option<u32>)
    ensures
        ({
            let d = digits_of(s@);
            if d.len() == 0 || digits_value(d) > u32::MAX {
                r is None
            } else {
                r == Some(digits_value(d) as u32)
            }
        }),
{
    let n = s.len();
    let mut digits: Vec<char> = Vec::new();
    let mut i: usize = 0;
    while i < n
        invariant
            n == s@.len(),
            i <= n,
            digits@ == digits_of(s@.take(i as int)),
            forall|k: int| 0 <= k < digits@.len() ==> is_digit_char(#[trigger] digits@[k]),
        decreases n - i,
    {
        proof {
            assert(s@.take(i + 1).drop_last() =~= s@.take(i as int));
        }
        if is_digit(s[i]) {
            digits.push(s[i]);
        }
        i = i + 1;
    }
    proof {
        assert(s@.take(n as int) =~= s@);
    }
    if digits.len() == 0 {
        return None;
    }
    proof {
        lemma_digits_value_nonneg(digits@);
    }
    match digits_to_u64(digits.as_slice()) {
        Some(v) => {
            if v <= 0xffff_ffffu64 {
                Some(v as u32)
            } else {
                None
            }
        },
        None => None,
    }
}

} // verus!
