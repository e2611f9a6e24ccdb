//! Character-level string helpers with contracts over `Seq<char>`.

use vstd::prelude::*;

verus! {

/// `p` is a prefix of `s`.
pub open spec fn has_prefix(s: Seq<char>, p: Seq<char>) -> bool {
    p.len() <= s.len() && s.subrange(0, p.len() as int) == p
}

/// `p` is a suffix of `s`.
pub open spec fn has_suffix(s: Seq<char>, p: Seq<char>) -> bool {
    p.len() <= s.len() && s.subrange(s.len() - p.len(), s.len() as int) == p
}

/// `needle` occurs somewhere in `s`.
pub open spec fn occurs_in(s: Seq<char>, needle: Seq<char>) -> bool {
    exists|i: int| 0 <= i && i + needle.len() <= s.len() && #[trigger] s.subrange(i, i + needle.len()) == needle
}

/// ASCII letter or digit.
pub open spec fn is_ascii_alnum(c: char) -> bool {
    ('a' <= c && c <= 'z') || ('A' <= c && c <= 'Z') || ('0' <= c && c <= '9')
}

/// ASCII digit.
pub open spec fn is_ascii_digit(c: char) -> bool {
    '0' <= c && c <= '9'
}

/// ASCII hexadecimal digit, either case.
pub open spec fn is_ascii_hex(c: char) -> bool {
    ('0' <= c && c <= '9') || ('a' <= c && c <= 'f') || ('A' <= c && c <= 'F')
}

/// The Unicode `White_Space` property, as `char::is_whitespace` defines it.
pub open spec fn is_white(c: char) -> bool {
    ('\u{9}' <= c && c <= '\u{d}') || c == ' ' || c == '\u{85}' || c == '\u{a0}' || c == '\u{1680}'
        || ('\u{2000}' <= c && c <= '\u{200a}') || c == '\u{2028}' || c == '\u{2029}'
        || c == '\u{202f}' || c == '\u{205f}' || c == '\u{3000}'
}

/// ASCII lower-casing of one character; other characters are kept.
pub open spec fn ascii_lower(c: char) -> char {
    if 'A' <= c && c <= 'Z' {
        ((c as u32) + 32) as char
    } else {
        c
    }
}

/// ASCII lower-casing of a whole sequence.
pub open spec fn ascii_lower_seq(s: Seq<char>) -> Seq<char> {
    s.map_values(|c: char| ascii_lower(c))
}

pub fn is_ascii_alnum_char(c: char) -> (r: bool)
    ensures r == is_ascii_alnum(c),
{
    ('a' <= c && c <= 'z') || ('A' <= c && c <= 'Z') || ('0' <= c && c <= '9')
}

pub fn is_ascii_digit_char(c: char) -> (r: bool)
    ensures r == is_ascii_digit(c),
{
    '0' <= c && c <= '9'
}

pub fn is_ascii_hex_char(c: char) -> (r: bool)
    ensures r == is_ascii_hex(c),
{
    ('0' <= c && c <= '9') || ('a' <= c && c <= 'f') || ('A' <= c && c <= 'F')
}

pub fn is_white_char(c: char) -> (r: bool)
    ensures r == is_white(c),
{
    ('\u{9}' <= c && c <= '\u{d}') || c == ' ' || c == '\u{85}' || c == '\u{a0}' || c == '\u{1680}'
        || ('\u{2000}' <= c && c <= '\u{200a}') || c == '\u{2028}' || c == '\u{2029}'
        || c == '\u{202f}' || c == '\u{205f}' || c == '\u{3000}'
}

pub fn ascii_lower_char(c: char) -> (r: char)
    ensures r == ascii_lower(c),
{
    if 'A' <= c && c <= 'Z' {
        let code: u32 = (c as u32) + 32;
        assert(0x61 <= code <= 0x7a);
        char_from_ascii(code)
    } else {
        c
    }
}

/// Converts an ASCII code point to its character.
#[verifier::external_body]
pub(crate) fn char_from_ascii(code: u32) -> (c: char)
    requires code < 0x80,
    ensures c == code as char,
{
    char::from_u32(code).unwrap()
}

/// Appends one character to a string (`String::push`).
#[verifier::external_body]
pub(crate) fn push_char(s: &mut String, c: char)
    ensures final(s)@ == old(s)@.push(c),
{
    s.push(c);
}

/// The characters of `s`, in order.
pub fn chars_of(s: &str) -> (v: Vec<char>)
    ensures v@ == s@,
{
    let mut v: Vec<char> = Vec::new();
    for c in it: s.chars()
        invariant
            v@ == it.seq().take(it.index() as int),
            it.seq() == s@,
    {
        v.push(c);
    }
    v
}

/// The string made of the characters `v[from..to]`.
pub fn string_of_range(v: &Vec<char>, from: usize, to: usize) -> (s: String)
    requires from <= to <= v.len(),
    ensures s@ == v@.subrange(from as int, to as int),
{
    let mut s = String::new();
    let mut i: usize = from;
    while i < to
        invariant
            from <= i <= to <= v.len(),
            s@ == v@.subrange(from as int, i as int),
        decreases to - i,
    {
        push_char(&mut s, v[i]);
        assert(v@.subrange(from as int, i + 1) == v@.subrange(from as int, i as int).push(v@[i as int]));
        i += 1;
    }
    s
}

/// Copy of a string slice.
pub fn owned(s: &str) -> (r: String)
    ensures r@ == s@,
{
    s.to_owned()
}

/// Concatenation of two strings.
pub fn concat(a: &str, b: &str) -> (r: String)
    ensures r@ == a@ + b@,
{
    let mut r = a.to_owned();
    r.append(b);
    r
}

/// Character-wise equality of two sequences held in vectors.
pub fn vec_eq(a: &Vec<char>, b: &Vec<char>) -> (r: bool)
    ensures r == (a@ == b@),
{
    if a.len() != b.len() {
        return false;
    }
    let mut i: usize = 0;
    while i < a.len()
        invariant
            i <= a.len() == b.len(),
            forall|j: int| 0 <= j < i ==> a@[j] == b@[j],
        decreases a.len() - i,
    {
        if a[i] != b[i] {
            return false;
        }
        i += 1;
    }
    assert(a@ =~= b@);
    true
}

/// String equality.
pub fn str_eq(a: &str, b: &str) -> (r: bool)
    ensures r == (a@ == b@),
{
    let va = chars_of(a);
    let vb = chars_of(b);
    vec_eq(&va, &vb)
}

/// `p` is a prefix of `v` starting at index `at`.
pub fn vec_matches_at(v: &Vec<char>, at: usize, p: &Vec<char>) -> (r: bool)
    requires at <= v.len(),
    ensures r == (at + p.len() <= v.len() && v@.subrange(at as int, at + p.len()) == p@),
{
    if p.len() > v.len() - at {
        return false;
    }
    let mut i: usize = 0;
    while i < p.len()
        invariant
            i <= p.len(),
            at + p.len() <= v.len(),
            forall|j: int| 0 <= j < i ==> v@[at + j] == p@[j],
        decreases p.len() - i,
    {
        if v[at + i] != p[i] {
            assert(v@.subrange(at as int, at + p.len())[i as int] != p@[i as int]);
            return false;
        }
        i += 1;
    }
    assert(v@.subrange(at as int, at + p.len()) =~= p@);
    true
}

/// `s` starts with `p`.
pub fn starts_with(s: &str, p: &str) -> (r: bool)
    ensures r == has_prefix(s@, p@),
{
    let vs = chars_of(s);
    let vp = chars_of(p);
    vec_matches_at(&vs, 0, &vp)
}

/// `s` ends with `p`.
pub fn ends_with(s: &str, p: &str) -> (r: bool)
    ensures r == has_suffix(s@, p@),
{
    let vs = chars_of(s);
    let vp = chars_of(p);
    if vp.len() > vs.len() {
        return false;
    }
    vec_matches_at(&vs, vs.len() - vp.len(), &vp)
}

/// `s` with the prefix `p` removed, if `s` starts with it.
pub fn strip_prefix(s: &str, p: &str) -> (r: Option<String>)
    ensures
        r is Some <==> has_prefix(s@, p@),
        r matches Some(t) ==> t@ == s@.subrange(p@.len() as int, s@.len() as int),
{
    let vs = chars_of(s);
    let vp = chars_of(p);
    if vec_matches_at(&vs, 0, &vp) {
        Some(string_of_range(&vs, vp.len(), vs.len()))
    } else {
        None
    }
}

/// `s` with the suffix `p` removed, if `s` ends with it.
pub fn strip_suffix(s: &str, p: &str) -> (r: Option<String>)
    ensures
        r is Some <==> has_suffix(s@, p@),
        r matches Some(t) ==> t@ == s@.subrange(0, s@.len() - p@.len()),
{
    let vs = chars_of(s);
    let vp = chars_of(p);
    if vp.len() > vs.len() {
        return None;
    }
    if vec_matches_at(&vs, vs.len() - vp.len(), &vp) {
        Some(string_of_range(&vs, 0, vs.len() - vp.len()))
    } else {
        None
    }
}

/// `needle` occurs in `s`.
pub fn contains_str(s: &str, needle: &str) -> (r: bool)
    ensures r == occurs_in(s@, needle@),
{
    let vs = chars_of(s);
    let vn = chars_of(needle);
    if vn.len() > vs.len() {
        assert(!occurs_in(s@, needle@));
        return false;
    }
    let last = vs.len() - vn.len();
    let mut i: usize = 0;
    loop
        invariant
            vn.len() <= vs.len(),
            last == vs.len() - vn.len(),
            i <= last,
            vs@ == s@, vn@ == needle@,
            forall|j: int| 0 <= j < i ==> #[trigger] s@.subrange(j, j + needle@.len()) != needle@,
        decreases last - i,
    {
        if vec_matches_at(&vs, i, &vn) {
            return true;
        }
        if i == last {
            return false;
        }
        i += 1;
    }
}


/// `s` without its leading Unicode white space.
pub open spec fn trim_start_seq(s: Seq<char>) -> Seq<char>
    decreases s.len(),
{
    if s.len() > 0 && is_white(s[0]) {
        trim_start_seq(s.drop_first())
    } else {
        s
    }
}

/// `s` without its trailing Unicode white space.
pub open spec fn trim_end_seq(s: Seq<char>) -> Seq<char>
    decreases s.len(),
{
    if s.len() > 0 && is_white(s.last()) {
        trim_end_seq(s.drop_last())
    } else {
        s
    }
}

/// `s` without leading and trailing Unicode white space (`str::trim`).
pub open spec fn trim_seq(s: Seq<char>) -> Seq<char> {
    trim_end_seq(trim_start_seq(s))
}

/// `s` without leading occurrences of `c` (`str::trim_start_matches` with a char).
pub open spec fn trim_start_char_seq(s: Seq<char>, c: char) -> Seq<char>
    decreases s.len(),
{
    if s.len() > 0 && s[0] == c {
        trim_start_char_seq(s.drop_first(), c)
    } else {
        s
    }
}

/// Index of the first character of `s` that separates pieces, or `s.len()` when none does.
/// A separator is `c` when `sep` is `Some(c)`, and any white space when `sep` is `None`.
pub open spec fn is_sep(sep: Option<char>, x: char) -> bool {
    match sep {
        Some(c) => x == c,
        None => is_white(x),
    }
}

pub open spec fn find_sep(s: Seq<char>, sep: Option<char>) -> nat
    decreases s.len(),
{
    if s.len() == 0 {
        0
    } else if is_sep(sep, s[0]) {
        0
    } else {
        1 + find_sep(s.drop_first(), sep)
    }
}

pub proof fn lemma_find_sep(s: Seq<char>, sep: Option<char>)
    ensures
        find_sep(s, sep) <= s.len(),
        forall|j: int| 0 <= j < find_sep(s, sep) ==> !is_sep(sep, #[trigger] s[j]),
        find_sep(s, sep) < s.len() ==> is_sep(sep, s[find_sep(s, sep) as int]),
    decreases s.len(),
{
    if s.len() > 0 && !is_sep(sep, s[0]) {
        lemma_find_sep(s.drop_first(), sep);
        assert forall|j: int| 0 <= j < find_sep(s, sep) implies !is_sep(sep, #[trigger] s[j]) by {
            if j > 0 {
                assert(s[j] == s.drop_first()[j - 1]);
            }
        }
    }
}

/// The pieces of `s` between separators (`str::split` with a char pattern).
pub open spec fn split_seq(s: Seq<char>, sep: Option<char>) -> Seq<Seq<char>>
    decreases s.len(),
{
    let k = find_sep(s, sep);
    if k >= s.len() {
        seq![s]
    } else {
        seq![s.subrange(0, k as int)] + split_seq(s.subrange(k + 1int, s.len() as int), sep)
    }
}

/// `s` split at the first `c` (`str::split_once` with a char pattern).
pub open spec fn split_once_seq(s: Seq<char>, c: char) -> Option<(Seq<char>, Seq<char>)> {
    let k = find_sep(s, Some(c));
    if k < s.len() {
        Some((s.subrange(0, k as int), s.subrange(k + 1int, s.len() as int)))
    } else {
        None
    }
}

/// Index of the first separator in `v` at or after `from`, or `v.len()`.
pub fn find_sep_from(v: &Vec<char>, from: usize, sep: Option<char>) -> (k: usize)
    requires from <= v.len(),
    ensures k == from + find_sep(v@.subrange(from as int, v@.len() as int), sep),
{
    let mut i = from;
    while i < v.len()
        invariant
            from <= i <= v.len(),
            find_sep(v@.subrange(from as int, v@.len() as int), sep)
                == (i - from) + find_sep(v@.subrange(i as int, v@.len() as int), sep),
        decreases v.len() - i,
    {
        let hit = match sep {
            Some(c) => v[i] == c,
            None => is_white_char(v[i]),
        };
        if hit {
            return i;
        }
        assert(v@.subrange(i as int, v@.len() as int).drop_first() == v@.subrange(i + 1, v@.len() as int));
        i += 1;
    }
    i
}

/// The pieces of `s` between separators.
pub fn split_by(s: &str, sep: Option<char>) -> (r: Vec<String>)
    ensures r@.map_values(|p: String| p@) == split_seq(s@, sep),
{
    let v = chars_of(s);
    let mut out: Vec<String> = Vec::new();
    let mut start: usize = 0;
    assert(v@.subrange(0, v@.len() as int) == v@);
    assert(out@.map_values(|p: String| p@) + split_seq(s@, sep) =~= split_seq(s@, sep));
    loop
        invariant
            v@ == s@,
            start <= v.len(),
            out@.map_values(|p: String| p@) + split_seq(v@.subrange(start as int, v@.len() as int), sep)
                == split_seq(s@, sep),
        decreases v.len() - start,
    {
        let k = find_sep_from(&v, start, sep);
        let ghost rest = v@.subrange(start as int, v@.len() as int);
        proof { lemma_find_sep(rest, sep); }
        let piece = string_of_range(&v, start, k);
        let ghost old_out = out@.map_values(|p: String| p@);
        out.push(piece);
        assert(out@.map_values(|p: String| p@) == old_out.push(piece@));
        if k >= v.len() {
            assert(rest.subrange(0, rest.len() as int) == rest);
            assert(split_seq(rest, sep) == seq![rest]);
            assert(old_out.push(piece@) == old_out + seq![rest]);
            return out;
        }
        assert(rest.subrange(0, (k - start) as int) == v@.subrange(start as int, k as int));
        assert(rest.subrange((k - start) + 1, rest.len() as int) == v@.subrange(k + 1, v@.len() as int));
        assert(old_out.push(piece@) + split_seq(v@.subrange(k + 1, v@.len() as int), sep)
            == old_out + (seq![piece@] + split_seq(v@.subrange(k + 1, v@.len() as int), sep)));
        start = k + 1;
    }
}

/// `split` always yields at least one piece.
pub proof fn lemma_split_nonempty(s: Seq<char>, sep: Option<char>)
    ensures split_seq(s, sep).len() > 0,
    decreases s.len(),
{
    lemma_find_sep(s, sep);
}

/// `s` split at the first `c`.
pub fn split_once_char(s: &str, c: char) -> (r: Option<(String, String)>)
    ensures
        r is Some <==> split_once_seq(s@, c) is Some,
        r matches Some(p) ==> (p.0@, p.1@) == split_once_seq(s@, c).unwrap(),
{
    let v = chars_of(s);
    let k = find_sep_from(&v, 0, Some(c));
    assert(v@.subrange(0, v@.len() as int) == v@);
    if k < v.len() {
        Some((string_of_range(&v, 0, k), string_of_range(&v, k + 1, v.len())))
    } else {
        None
    }
}

/// `s` without leading and trailing Unicode white space.
pub fn trim(s: &str) -> (r: String)
    ensures r@ == trim_seq(s@),
{
    let v = chars_of(s);
    let n = v.len();
    let mut lo: usize = 0;
    assert(v@.subrange(0, n as int) == v@);
    while lo < n && is_white_char(v[lo])
        invariant
            lo <= n == v.len(),
            trim_start_seq(s@) == trim_start_seq(v@.subrange(lo as int, n as int)),
            v@ == s@,
        decreases n - lo,
    {
        assert(v@.subrange(lo as int, n as int).drop_first() == v@.subrange(lo + 1, n as int));
        lo += 1;
    }
    let mut hi: usize = n;
    while hi > lo && is_white_char(v[hi - 1])
        invariant
            lo <= hi <= n == v.len(),
            trim_seq(s@) == trim_end_seq(v@.subrange(lo as int, hi as int)),
            trim_start_seq(s@) == trim_start_seq(v@.subrange(lo as int, n as int)),
            v@ == s@,
        decreases hi - lo,
    {
        assert(v@.subrange(lo as int, hi as int).drop_last() == v@.subrange(lo as int, hi - 1));
        hi -= 1;
    }
    string_of_range(&v, lo, hi)
}

/// `s` without leading occurrences of `c`.
pub fn trim_start_char(s: &str, c: char) -> (r: String)
    ensures r@ == trim_start_char_seq(s@, c),
{
    let v = chars_of(s);
    let n = v.len();
    let mut lo: usize = 0;
    assert(v@.subrange(0, n as int) == v@);
    while lo < n && v[lo] == c
        invariant
            lo <= n == v.len(),
            trim_start_char_seq(s@, c) == trim_start_char_seq(v@.subrange(lo as int, n as int), c),
        decreases n - lo,
    {
        assert(v@.subrange(lo as int, n as int).drop_first() == v@.subrange(lo + 1, n as int));
        lo += 1;
    }
    string_of_range(&v, lo, n)
}

/// ASCII lower-casing of a string (`str::to_ascii_lowercase`).
pub fn to_ascii_lower(s: &str) -> (r: String)
    ensures r@ == ascii_lower_seq(s@),
{
    let v = chars_of(s);
    let mut out = String::new();
    let mut i: usize = 0;
    while i < v.len()
        invariant
            i <= v.len(), v@ == s@,
            out@ == ascii_lower_seq(v@.subrange(0, i as int)),
        decreases v.len() - i,
    {
        let c = ascii_lower_char(v[i]);
        push_char(&mut out, c);
        assert(ascii_lower_seq(v@.subrange(0, i + 1)) == ascii_lower_seq(v@.subrange(0, i as int)).push(c));
        i += 1;
    }
    assert(v@.subrange(0, v@.len() as int) == v@);
    out
}

/// The digit character for `d < 10`.
pub open spec fn digit_char(d: nat) -> char {
    (('0' as u32) + d) as char
}

/// Decimal representation of `n` without leading zeros (`u64::to_string`).
pub open spec fn decimal(n: nat) -> Seq<char>
    decreases n,
{
    if n < 10 {
        seq![digit_char(n)]
    } else {
        decimal(n / 10).push(digit_char(n % 10))
    }
}

/// The digit character for `d < 10`.
pub fn digit_to_char(d: u64) -> (c: char)
    requires d < 10,
    ensures c == digit_char(d as nat),
{
    let code: u32 = 48 + (d as u32);
    char_from_ascii(code)
}

/// Decimal representation of `n`.
pub fn u64_to_decimal(n: u64) -> (s: String)
    ensures s@ == decimal(n as nat),
    decreases n,
{
    if n < 10 {
        let mut s = String::new();
        push_char(&mut s, digit_to_char(n));
        s
    } else {
        let mut s = u64_to_decimal(n / 10);
        push_char(&mut s, digit_to_char(n % 10));
        s
    }
}

/// Decimal representation of `n` (`u128::to_string`).
pub fn u128_to_decimal(n: u128) -> (s: String)
    ensures s@ == decimal(n as nat),
    decreases n,
{
    if n < 10 {
        let mut s = String::new();
        push_char(&mut s, digit_to_char(n as u64));
        s
    } else {
        let mut s = u128_to_decimal(n / 10);
        push_char(&mut s, digit_to_char((n % 10) as u64));
        s
    }
}

/// Numeric value of a sequence of ASCII digits.
pub open spec fn digits_value(d: Seq<char>) -> nat
    decreases d.len(),
{
    if d.len() == 0 {
        0
    } else {
        digits_value(d.drop_last()) * 10 + ((d.last() as u32) - ('0' as u32)) as nat
    }
}

/// The digits part of an unsigned number: `s` without one leading `+`.
pub open spec fn unsigned_digits(s: Seq<char>) -> Seq<char> {
    if s.len() > 0 && s[0] == '+' { s.drop_first() } else { s }
}

/// Every character of `d` is an ASCII digit.
pub open spec fn all_digits(d: Seq<char>) -> bool {
    forall|i: int| 0 <= i < d.len() ==> is_ascii_digit(#[trigger] d[i])
}

/// What `u64::from_str` accepts: an optional `+`, then one or more ASCII digits whose value fits.
pub open spec fn parse_u64_seq(s: Seq<char>) -> Option<u64> {
    let d = unsigned_digits(s);
    if d.len() > 0 && all_digits(d) && digits_value(d) <= u64::MAX {
        Some(digits_value(d) as u64)
    } else {
        None
    }
}

pub proof fn lemma_digits_value_monotone(d: Seq<char>, i: int)
    requires
        0 <= i <= d.len(),
        all_digits(d),
    ensures digits_value(d.subrange(0, i)) <= digits_value(d),
    decreases d.len() - i,
{
    if i < d.len() {
        lemma_digits_value_monotone(d, i + 1);
        let t = d.subrange(0, i + 1);
        assert(t.drop_last() == d.subrange(0, i));
    } else {
        assert(d.subrange(0, i) == d);
    }
}

/// Parses a decimal `u64` as `u64::from_str` does.
pub fn parse_u64(s: &str) -> (r: Option<u64>)
    ensures r == parse_u64_seq(s@),
{
    let v = chars_of(s);
    let start: usize = if v.len() > 0 && v[0] == '+' { 1 } else { 0 };
    let ghost d = unsigned_digits(s@);
    assert(d == v@.subrange(start as int, v@.len() as int));
    if start == v.len() {
        return None;
    }
    let mut value: u64 = 0;
    let mut i = start;
    while i < v.len()
        invariant
            start <= i <= v.len(), v@ == s@,
            d == unsigned_digits(s@),
            d == v@.subrange(start as int, v@.len() as int),
            forall|j: int| start <= j < i ==> is_ascii_digit(#[trigger] v@[j]),
            value == digits_value(v@.subrange(start as int, i as int)),
        decreases v.len() - i,
    {
        let c = v[i];
        if !is_ascii_digit_char(c) {
            assert(d[i - start] == c);
            assert(!is_ascii_digit(d[i - start]));
            assert(!all_digits(d));
            assert(parse_u64_seq(s@) is None);
            return None;
        }
        let digit: u64 = ((c as u32) - 48) as u64;
        assert(v@.subrange(start as int, i + 1).drop_last() == v@.subrange(start as int, i as int));
        assert(v@.subrange(start as int, i + 1).last() == c);
        let ghost big: nat = digits_value(v@.subrange(start as int, i + 1));
        assert(big == value * 10 + digit);
        if value > 1844674407370955161 || (value == 1844674407370955161 && digit > 5) {
            proof {
                assert(big > u64::MAX);
                if all_digits(d) {
                    lemma_digits_value_monotone(d, i + 1 - start);
                    assert(d.subrange(0, i + 1 - start) == v@.subrange(start as int, i + 1));
                }
                assert(parse_u64_seq(s@) is None);
            }
            return None;
        }
        value = value * 10 + digit;
        i += 1;
    }
    assert(v@.subrange(start as int, v@.len() as int) == d);
    Some(value)
}

} // verus!
