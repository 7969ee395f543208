//! What the services take from their surroundings: the wall clock and
//! fresh random identifiers; and the text they compose from parts.
use vstd::prelude::*;

verus! {

/// Calls `chrono::Utc::now()` and reads `timestamp_millis()`: the current
/// time as milliseconds since the Unix epoch. The value depends on when it
/// is called, so nothing is stated of it.
#[verifier::external_body]
pub fn now_millis() -> i64 {
    chrono::Utc::now().timestamp_millis()
}

/// Calls `chrono::Utc::now()` and reads `timestamp()`: the current time as
/// whole seconds since the Unix epoch. The value depends on when it is
/// called, so nothing is stated of it.
#[verifier::external_body]
pub fn now_secs() -> i64 {
    chrono::Utc::now().timestamp()
}

/// Calls `uuid::Uuid::new_v4()` and renders it with `to_string()`: a fresh
/// random identifier in hyphenated form. Random, so nothing is stated of it.
#[verifier::external_body]
pub fn new_id() -> String {
    uuid::Uuid::new_v4().to_string()
}

/// The text of a single decimal digit.
fn digit_text(d: u64) -> (s: &'static str)
    requires
        d < 10,
    ensures
        s@ == seq![(d + '0' as int) as char],
{
    proof {
        reveal_strlit("0");
        reveal_strlit("1");
        reveal_strlit("2");
        reveal_strlit("3");
        reveal_strlit("4");
        reveal_strlit("5");
        reveal_strlit("6");
        reveal_strlit("7");
        reveal_strlit("8");
        reveal_strlit("9");
    }
    match d {
        0 => "0",
        1 => "1",
        2 => "2",
        3 => "3",
        4 => "4",
        5 => "5",
        6 => "6",
        7 => "7",
        8 => "8",
        _ => "9",
    }
}

/// The decimal digits of `m`, most significant first.
fn digits_text(m: u64) -> (s: String)
    ensures
        s@ == crate::observability::decimal_digits(m as nat),
    decreases m,
{
    if m < 10 {
        digit_text(m).to_owned()
    } else {
        let head = digits_text(m / 10);
        concat(head.as_str(), digit_text(m % 10))
    }
}

/// The decimal text of `n`, with a leading `-` when it is negative.
pub fn int_text(n: i32) -> (s: String)
    ensures
        s@ == crate::observability::decimal(n as int),
{
    if n < 0 {
        let magnitude: u64 = (0i64 - (n as i64)) as u64;
        let digits = digits_text(magnitude);
        proof {
            reveal_strlit("-");
        }
        concat("-", digits.as_str())
    } else {
        digits_text(n as u64)
    }
}

/// The concatenation of the two strings.
pub fn concat(a: &str, b: &str) -> (s: String)
    ensures
        s@ == a@ + b@,
{
    a.to_owned().concat(b)
}

} // verus!
