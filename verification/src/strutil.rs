//! Character-sequence helpers: prefix tests, substring search, path
//! basenames, and decimal rendering of small integers.

use vstd::prelude::*;

verus! {

use vstd::string::StrSliceExecFns;
use vstd::string::StringExecFns;

/// `p` is a prefix of `s`.
pub open spec fn starts_with_spec(s: Seq<char>, p: Seq<char>) -> bool {
    p.len() <= s.len() && s.subrange(0, p.len() as int) =~= p
}

/// `p` occurs contiguously somewhere in `s`.
pub open spec fn contains_spec(s: Seq<char>, p: Seq<char>) -> bool {
    exists|i: int|
        0 <= i && i + p.len() <= s.len() && #[trigger] s.subrange(i, i + p.len() as int) =~= p
}

pub fn str_starts_with(s: &str, p: &str) -> (r: bool)
    ensures
        r == starts_with_spec(s@, p@),
{
    let n = s.unicode_len();
    let m = p.unicode_len();
    if m > n {
        return false;
    }
    let mut i: usize = 0;
    while i < m
        invariant
            i <= m <= n,
            n == s@.len(),
            m == p@.len(),
            forall|j: int| 0 <= j < i ==> s@[j] == p@[j],
        decreases m - i,
    {
        if s.get_char(i) != p.get_char(i) {
            assert(!starts_with_spec(s@, p@)) by {
                if starts_with_spec(s@, p@) {
                    assert(s@.subrange(0, p@.len() as int)[i as int] == s@[i as int]);
                }
            }
            return false;
        }
        i += 1;
    }
    assert(s@.subrange(0, p@.len() as int) =~= p@);
    true
}

/// Relies on `String::from_utf8` (std): returns the string whose UTF-8
/// encoding is exactly the given bytes, and fails exactly on invalid UTF-8.
#[verifier::external_body]
pub fn string_from_utf8(v: Vec<u8>) -> (r: Option<String>)
    ensures
        r is Some <==> vstd::utf8::valid_utf8(v@),
        r matches Some(s) ==> s@ == vstd::utf8::decode_utf8(v@),
{
    match String::from_utf8(v) {
        Ok(s) => Some(s),
        Err(_) => None,
    }
}

/// Byte-for-byte copy of a buffer.
pub fn copy_bytes(v: &Vec<u8>) -> (r: Vec<u8>)
    ensures
        r@ =~= v@,
{
    let mut r: Vec<u8> = Vec::new();
    let mut i: usize = 0;
    while i < v.len()
        invariant
            i <= v@.len(),
            r@ =~= v@.take(i as int),
        decreases v@.len() - i,
    {
        r.push(v[i]);
        i += 1;
    }
    r
}

/// Character-for-character equality of two string slices.
pub fn str_eq(a: &str, b: &str) -> (r: bool)
    ensures
        r == (a@ == b@),
{
    let n = a.unicode_len();
    let m = b.unicode_len();
    if n != m {
        return false;
    }
    let mut i: usize = 0;
    while i < n
        invariant
            i <= n,
            n == a@.len(),
            n == b@.len(),
            forall|j: int| 0 <= j < i ==> a@[j] == b@[j],
        decreases n - i,
    {
        if a.get_char(i) != b.get_char(i) {
            return false;
        }
        i += 1;
    }
    assert(a@ =~= b@);
    true
}

/// The characters of `s` from `off` on match `p` exactly.
fn matches_at(s: &str, p: &str, off: usize) -> (r: bool)
    requires
        off + p@.len() <= s@.len(),
    ensures
        r == (s@.subrange(off as int, off + p@.len() as int) =~= p@),
{
    let n = s.unicode_len();
    let m = p.unicode_len();
    let mut i: usize = 0;
    while i < m
        invariant
            i <= m,
            m == p@.len(),
            n == s@.len(),
            off + m <= n,
            forall|j: int| 0 <= j < i ==> s@[off + j] == p@[j],
        decreases m - i,
    {
        if s.get_char(off + i) != p.get_char(i) {
            assert(!(s@.subrange(off as int, off + p@.len() as int) =~= p@)) by {
                if s@.subrange(off as int, off + p@.len() as int) =~= p@ {
                    assert(s@.subrange(off as int, off + p@.len() as int)[i as int] == s@[off + i]);
                }
            }
            return false;
        }
        i += 1;
    }
    assert(s@.subrange(off as int, off + p@.len() as int) =~= p@);
    true
}

pub fn str_contains(s: &str, p: &str) -> (r: bool)
    ensures
        r == contains_spec(s@, p@),
{
    let n = s.unicode_len();
    let m = p.unicode_len();
    if m > n {
        assert(!contains_spec(s@, p@));
        return false;
    }
    let mut i: usize = 0;
    while i <= n - m
        invariant
            m <= n,
            n == s@.len(),
            m == p@.len(),
            i <= n - m + 1,
            forall|j: int|
                0 <= j < i ==> !(#[trigger] s@.subrange(j, j + p@.len() as int) =~= p@),
        decreases n - m + 1 - i,
    {
        if matches_at(s, p, i) {
            assert(contains_spec(s@, p@)) by {
                assert(0 <= i as int && i as int + p@.len() <= s@.len() && s@.subrange(
                    i as int,
                    i as int + p@.len() as int,
                ) =~= p@);
            }
            return true;
        }
        i += 1;
    }
    assert(!contains_spec(s@, p@));
    false
}

/// A path separator, on either path convention.
pub open spec fn is_sep(c: char) -> bool {
    c == '/' || c == '\\'
}

/// The final path component: the longest separator-free suffix.
pub open spec fn basename_spec(s: Seq<char>) -> Seq<char>
    decreases s.len(),
{
    if s.len() == 0 {
        s
    } else if is_sep(s.last()) {
        Seq::empty()
    } else {
        basename_spec(s.drop_last()).push(s.last())
    }
}

proof fn lemma_basename_suffix(s: Seq<char>, k: int)
    requires
        0 <= k <= s.len(),
        forall|j: int| k <= j < s.len() ==> !is_sep(s[j]),
        k == 0 || is_sep(s[k - 1]),
    ensures
        basename_spec(s) =~= s.subrange(k, s.len() as int),
    decreases s.len(),
{
    if s.len() == 0 {
    } else if k == s.len() {
        assert(is_sep(s.last()));
    } else {
        assert(!is_sep(s.last()));
        lemma_basename_suffix(s.drop_last(), k);
        assert(basename_spec(s) =~= s.subrange(k, s.len() as int)) by {
            assert(basename_spec(s) == basename_spec(s.drop_last()).push(s.last()));
            assert(s.drop_last().subrange(k, s.len() - 1) =~= s.subrange(k, s.len() - 1));
            assert(s.subrange(k, s.len() - 1).push(s.last()) =~= s.subrange(k, s.len() as int));
        }
    }
}

/// Index where the basename of `s` begins.
fn basename_start(s: &str) -> (k: usize)
    ensures
        k <= s@.len(),
        forall|j: int| k <= j < s@.len() ==> !is_sep(s@[j]),
        k == 0 || is_sep(s@[k - 1]),
{
    let n = s.unicode_len();
    let mut k: usize = n;
    while k > 0
        invariant
            k <= n,
            n == s@.len(),
            forall|j: int| k <= j < s@.len() ==> !is_sep(s@[j]),
        decreases k,
    {
        let c = s.get_char(k - 1);
        if c == '/' || c == '\\' {
            return k;
        }
        k -= 1;
    }
    0
}

/// The final path component of `s`.
pub fn basename_of(s: &str) -> (r: &str)
    ensures
        r@ =~= basename_spec(s@),
{
    let k = basename_start(s);
    let n = s.unicode_len();
    let r = s.substring_char(k, n);
    proof {
        lemma_basename_suffix(s@, k as int);
    }
    r
}

/// The character for one decimal digit.
pub open spec fn digit_char(d: int) -> char {
    if d == 0 {
        '0'
    } else if d == 1 {
        '1'
    } else if d == 2 {
        '2'
    } else if d == 3 {
        '3'
    } else if d == 4 {
        '4'
    } else if d == 5 {
        '5'
    } else if d == 6 {
        '6'
    } else if d == 7 {
        '7'
    } else if d == 8 {
        '8'
    } else {
        '9'
    }
}

/// Decimal rendering of a non-negative integer, no leading zeros.
pub open spec fn dec_chars(v: int) -> Seq<char>
    decreases v,
{
    if v < 0 {
        Seq::empty()
    } else if v <= 9 {
        seq![digit_char(v)]
    } else {
        dec_chars(v / 10).push(digit_char(v % 10))
    }
}

fn digit_str(d: u32) -> (s: &'static str)
    requires
        d <= 9,
    ensures
        s@ =~= seq![digit_char(d as int)],
{
    proof {
        reveal_strlit("0");
        reveal_strlit("1");
        reveal_strlit("2");
        reveal_strlit("3");
        reveal_strlit("4");
        reveal_strlit("5");
        reveal_strlit("6");
        reveal_strlit("7");
        reveal_strlit("8");
        reveal_strlit("9");
    }
    match d {
        0 => "0",
        1 => "1",
        2 => "2",
        3 => "3",
        4 => "4",
        5 => "5",
        6 => "6",
        7 => "7",
        8 => "8",
        _ => "9",
    }
}

/// Decimal rendering of `v`.
pub fn u32_dec_string(v: u32) -> (s: String)
    ensures
        s@ =~= dec_chars(v as int),
    decreases v,
{
    if v <= 9 {
        String::from_str(digit_str(v))
    } else {
        let mut s = u32_dec_string(v / 10);
        s.append(digit_str(v % 10));
        s
    }
}

/// Append the two-digit zero-padded rendering of `v` (`v <= 99`).
pub open spec fn two_digit_chars(v: int) -> Seq<char> {
    seq![digit_char(v / 10), digit_char(v % 10)]
}

pub fn push_two_digits(out: &mut String, v: u32)
    requires
        v <= 99,
    ensures
        final(out)@ =~= old(out)@ + two_digit_chars(v as int),
{
    out.append(digit_str(v / 10));
    out.append(digit_str(v % 10));
}

/// The four-digit zero-padded rendering of `v` (`v <= 9999`).
pub open spec fn four_digit_chars(v: int) -> Seq<char> {
    seq![
        digit_char(v / 1000),
        digit_char((v / 100) % 10),
        digit_char((v / 10) % 10),
        digit_char(v % 10),
    ]
}

pub fn push_four_digits(out: &mut String, v: u32)
    requires
        v <= 9999,
    ensures
        final(out)@ =~= old(out)@ + four_digit_chars(v as int),
{
    out.append(digit_str(v / 1000));
    out.append(digit_str((v / 100) % 10));
    out.append(digit_str((v / 10) % 10));
    out.append(digit_str(v % 10));
}

} // verus!
