//! String primitives the matching and configuration logic is built on,
//! written over the character-sequence view of `str`.
use vstd::prelude::*;

verus! {

/// `p` is a prefix of `s`.
pub open spec fn is_prefix_of(p: Seq<char>, s: Seq<char>) -> bool {
    p.len() <= s.len() && s.subrange(0, p.len() as int) == p
}

/// `p` occurs as a contiguous run of characters somewhere in `s`.
pub open spec fn occurs_in(p: Seq<char>, s: Seq<char>) -> bool {
    exists|i: int| 0 <= i && i + p.len() <= s.len() && #[trigger] s.subrange(i, i + p.len()) == p
}

/// `c` does not occur in `s`.
pub open spec fn free_of(c: char, s: Seq<char>) -> bool {
    forall|i: int| 0 <= i < s.len() ==> s[i] != c
}

/// ASCII lower-casing of one character; other characters are unchanged.
pub open spec fn ascii_lower(c: char) -> char {
    if 'A' <= c && c <= 'Z' {
        ((c as u32) + 32) as char
    } else {
        c
    }
}

/// The two sequences are equal up to ASCII case.
pub open spec fn ascii_case_eq(a: Seq<char>, b: Seq<char>) -> bool {
    a.len() == b.len() && forall|i: int| 0 <= i < a.len() ==> ascii_lower(a[i]) == ascii_lower(b[i])
}

/// Whether `p` occurs in `s` at position `at`.
fn occurs_at(s: &str, p: &str, at: usize, s_len: usize, p_len: usize) -> (yes: bool)
    requires
        s_len == s@.len(),
        p_len == p@.len(),
        at + p_len <= s_len,
    ensures
        yes == (s@.subrange(at as int, at + p_len) == p@),
{
    let mut j: usize = 0;
    while j < p_len
        invariant
            j <= p_len,
            s_len == s@.len(),
            p_len == p@.len(),
            at + p_len <= s_len,
            forall|k: int| 0 <= k < j ==> s@[at + k] == p@[k],
        decreases p_len - j,
    {
        if s.get_char(at + j) != p.get_char(j) {
            proof {
                assert(s@.subrange(at as int, at + p_len)[j as int] != p@[j as int]);
            }
            return false;
        }
        j = j + 1;
    }
    proof {
        assert(s@.subrange(at as int, at + p_len) =~= p@);
    }
    true
}

/// The rest of `s` after `prefix` when `s` starts with `prefix`, otherwise
/// `None`.
pub fn strip_prefix<'a>(s: &'a str, prefix: &str) -> (rest: Option<&'a str>)
    ensures
        rest is Some <==> is_prefix_of(prefix@, s@),
        rest matches Some(r) ==> r@ == s@.subrange(prefix@.len() as int, s@.len() as int),
{
    let s_len = s.unicode_len();
    let p_len = prefix.unicode_len();
    if p_len > s_len {
        return None;
    }
    if occurs_at(s, prefix, 0, s_len, p_len) {
        Some(s.substring_char(p_len, s_len))
    } else {
        None
    }
}

/// Whether `pattern` matches some contiguous part of `s`.
pub fn contains(s: &str, pattern: &str) -> (found: bool)
    ensures
        found == occurs_in(pattern@, s@),
{
    let s_len = s.unicode_len();
    let p_len = pattern.unicode_len();
    if p_len > s_len {
        return false;
    }
    let last = s_len - p_len;
    let mut at: usize = 0;
    loop
        invariant
            s_len == s@.len(),
            p_len == pattern@.len(),
            last + p_len == s_len,
            at <= last,
            forall|i: int| 0 <= i < at ==> #[trigger] s@.subrange(i, i + p_len) != pattern@,
        decreases last - at,
    {
        if occurs_at(s, pattern, at, s_len, p_len) {
            return true;
        }
        if at == last {
            return false;
        }
        at = at + 1;
    }
}

/// The code of `c` lower-cased in the ASCII range.
fn ascii_lower_code(c: char) -> (code: u32)
    ensures
        code == ascii_lower(c) as u32,
{
    if 'A' <= c && c <= 'Z' {
        (c as u32) + 32
    } else {
        c as u32
    }
}

/// Whether the two strings are equal when ASCII letters are compared
/// without regard to case.
pub fn eq_ignore_ascii_case(a: &str, b: &str) -> (same: bool)
    ensures
        same == ascii_case_eq(a@, b@),
{
    let n = a.unicode_len();
    if n != b.unicode_len() {
        return false;
    }
    let mut i: usize = 0;
    while i < n
        invariant
            i <= n,
            n == a@.len(),
            n == b@.len(),
            forall|k: int| 0 <= k < i ==> ascii_lower(a@[k]) == ascii_lower(b@[k]),
        decreases n - i,
    {
        if ascii_lower_code(a.get_char(i)) != ascii_lower_code(b.get_char(i)) {
            return false;
        }
        i = i + 1;
    }
    true
}

/// `s` with every leading occurrence of `c` removed.
pub fn trim_start_char<'a>(s: &'a str, c: char) -> (rest: &'a str)
    ensures
        rest@.len() <= s@.len(),
        s@ == Seq::new((s@.len() - rest@.len()) as nat, |_i: int| c) + rest@,
        rest@.len() > 0 ==> rest@[0] != c,
{
    let n = s.unicode_len();
    let mut i: usize = 0;
    while i < n && s.get_char(i) == c
        invariant
            i <= n,
            n == s@.len(),
            forall|k: int| 0 <= k < i ==> s@[k] == c,
        decreases n - i,
    {
        i = i + 1;
    }
    let rest = s.substring_char(i, n);
    proof {
        assert(s@ =~= Seq::new(i as nat, |_k: int| c) + rest@);
    }
    rest
}

/// The parts before and after the first occurrence of `c`, or `None` when
/// `c` does not occur.
pub fn split_once_char<'a>(s: &'a str, c: char) -> (parts: Option<(&'a str, &'a str)>)
    ensures
        parts is None <==> free_of(c, s@),
        parts matches Some((a, b)) ==> s@ == a@ + seq![c] + b@ && free_of(c, a@),
{
    let n = s.unicode_len();
    let mut i: usize = 0;
    while i < n
        invariant
            i <= n,
            n == s@.len(),
            forall|k: int| 0 <= k < i ==> s@[k] != c,
        decreases n - i,
    {
        if s.get_char(i) == c {
            let before = s.substring_char(0, i);
            let after = s.substring_char(i + 1, n);
            proof {
                assert(s@ =~= before@ + seq![c] + after@);
            }
            return Some((before, after));
        }
        i = i + 1;
    }
    None
}

/// `c` is an ASCII decimal digit.
pub open spec fn is_digit(c: char) -> bool {
    '0' <= c && c <= '9'
}

/// Value of a sequence of decimal digits, most significant first.
pub open spec fn digits_value(d: Seq<char>) -> int
    decreases d.len(),
{
    if d.len() == 0 {
        0
    } else {
        digits_value(d.drop_last()) * 10 + (d.last() as int - '0' as int)
    }
}

/// The digits of an unsigned decimal literal: a leading `+` is allowed.
pub open spec fn unsigned_digits(s: Seq<char>) -> Seq<char> {
    if s.len() > 0 && s[0] == '+' {
        s.drop_first()
    } else {
        s
    }
}

/// `s` is an unsigned decimal literal whose value is at most `max`.
pub open spec fn is_unsigned_literal(s: Seq<char>, max: int) -> bool {
    let d = unsigned_digits(s);
    &&& d.len() > 0
    &&& forall|i: int| 0 <= i < d.len() ==> is_digit(d[i])
    &&& digits_value(d) <= max
}

/// The value of a sequence of digits is never negative.
proof fn lemma_digits_value_nonneg(d: Seq<char>)
    requires
        forall|i: int| 0 <= i < d.len() ==> is_digit(d[i]),
    ensures
        digits_value(d) >= 0,
    decreases d.len(),
{
    if d.len() > 0 {
        lemma_digits_value_nonneg(d.drop_last());
    }
}

/// More digits never give a smaller value.
proof fn lemma_digits_value_grows(d: Seq<char>, k: int)
    requires
        0 <= k <= d.len(),
        forall|i: int| 0 <= i < d.len() ==> is_digit(d[i]),
    ensures
        digits_value(d.take(k)) <= digits_value(d),
    decreases d.len(),
{
    if k == d.len() {
        assert(d.take(k) =~= d);
    } else {
        let p = d.drop_last();
        lemma_digits_value_grows(p, k);
        assert(p.take(k) =~= d.take(k));
        lemma_digits_value_nonneg(p);
    }
}

/// The value of the unsigned decimal literal `s` when it is at most `max`:
/// an optional `+`, then one or more decimal digits.
fn parse_unsigned(s: &str, max: u64) -> (n: Option<u64>)
    requires
        max >= 9,
    ensures
        n is Some <==> is_unsigned_literal(s@, max as int),
        n matches Some(v) ==> v as int == digits_value(unsigned_digits(s@)),
{
    let len = s.unicode_len();
    let start: usize = if len > 0 && s.get_char(0) == '+' {
        1
    } else {
        0
    };
    let ghost d = unsigned_digits(s@);
    proof {
        assert(d =~= s@.subrange(start as int, len as int));
    }
    if start == len {
        return None;
    }
    let mut v: u64 = 0;
    let mut i: usize = start;
    while i < len
        invariant
            start <= i <= len,
            len == s@.len(),
            max >= 9,
            d == s@.subrange(start as int, len as int),
            d == unsigned_digits(s@),
            forall|k: int| 0 <= k < i - start ==> is_digit(#[trigger] d[k]),
            v as int == digits_value(d.take(i - start)),
            v <= max,
        decreases len - i,
    {
        let c = s.get_char(i);
        let j: Ghost<int> = Ghost(i - start);
        assert(d[j@] == c);
        if !('0' <= c && c <= '9') {
            proof {
                assert(!is_digit(d[j@]));
            }
            return None;
        }
        let digit: u64 = (c as u32 - '0' as u32) as u64;
        proof {
            assert(d.take(j@ + 1).drop_last() =~= d.take(j@));
            assert(d.take(j@ + 1).last() == c);
        }
        if v > (max - digit) / 10 {
            proof {
                assert(digits_value(d.take(j@ + 1)) > max);
                if is_unsigned_literal(s@, max as int) {
                    lemma_digits_value_grows(d, j@ + 1);
                }
            }
            return None;
        }
        v = v * 10 + digit;
        i = i + 1;
    }
    proof {
        assert(d.take(len - start) =~= d);
    }
    Some(v)
}

/// What `str::parse::<u64>()` gives: the value of `s` when it is an
/// optional `+` followed by one or more decimal digits denoting a value
/// that fits in `u64`; `None` otherwise (where it gives an `Err`).
pub fn parse_u64(s: &str) -> (n: Option<u64>)
    ensures
        n is Some <==> is_unsigned_literal(s@, u64::MAX as int),
        n matches Some(v) ==> v as int == digits_value(unsigned_digits(s@)),
{
    parse_unsigned(s, u64::MAX)
}

/// What `str::parse::<u16>()` gives: the value of `s` when it is an
/// optional `+` followed by one or more decimal digits denoting a value
/// that fits in `u16`; `None` otherwise (where it gives an `Err`).
pub fn parse_u16(s: &str) -> (n: Option<u16>)
    ensures
        n is Some <==> is_unsigned_literal(s@, u16::MAX as int),
        n matches Some(v) ==> v as int == digits_value(unsigned_digits(s@)),
{
    match parse_unsigned(s, 65535) {
        Some(v) => Some(v as u16),
        None => None,
    }
}

/// `s` starts with `prefix`.
pub fn starts_with(s: &str, prefix: &str) -> (yes: bool)
    ensures
        yes == is_prefix_of(prefix@, s@),
{
    strip_prefix(s, prefix).is_some()
}

/// The two strings hold the same characters.
pub fn str_eq(a: &str, b: &str) -> (same: bool)
    ensures
        same == (a@ == b@),
{
    proof {
        assert(a@.subrange(0, a@.len() as int) =~= a@);
    }
    match strip_prefix(a, b) {
        Some(rest) => {
            let e = rest.is_empty();
            proof {
                if e {
                    assert(a@ =~= b@);
                }
            }
            e
        },
        None => false,
    }
}

} // verus!
