//! Calls into std and into outside crates whose results the rest of the library
//! relies on. Each function here is trusted: its contract is what the called
//! function documents.

use std::fmt::Write;
use vstd::prelude::*;

verus! {

/// What `str::to_lowercase` yields for a text.
pub uninterp spec fn lower_of(s: Seq<char>) -> Seq<char>;

/// What `str::to_uppercase` yields for a text.
pub uninterp spec fn upper_of(s: Seq<char>) -> Seq<char>;

/// The last component that `std::path::Path::file_name` finds in a path.
pub uninterp spec fn name_of(path: Seq<char>) -> Option<Seq<char>>;

/// Groups 1 and 2 of the leftmost match of a regular expression in a text, as
/// the `regex` crate finds them; `None` when there is no match or the pattern
/// does not compile.
pub uninterp spec fn regex_capture(pattern: Seq<char>, text: Seq<char>) -> Option<
    (Option<Seq<char>>, Option<Seq<char>>),
>;

/// The instant, in seconds since 1970-01-01 00:00:00, that chrono's
/// `NaiveDateTime::parse_from_str` reads from a text with a format.
pub uninterp spec fn parsed_time(text: Seq<char>, format: Seq<char>) -> Option<i64>;

/// The text that chrono writes for an instant (seconds since 1970) with a format.
pub uninterp spec fn formatted_time(secs: i64, format: Seq<char>) -> Option<Seq<char>>;

/// Every instant that chrono can represent lies within this many seconds of 1970.
pub const TIME_LIMIT: i64 = 10_000_000_000_000;

pub open spec fn opt_view(o: Option<String>) -> Option<Seq<char>> {
    match o {
        Some(s) => Some(s@),
        None => None,
    }
}

/// Relies on `str::to_lowercase`: the result depends on the characters alone.
#[verifier::external_body]
pub fn to_lowercase(s: &str) -> (r: String)
    ensures
        r@ == lower_of(s@),
{
    s.to_lowercase()
}

/// Relies on `str::to_uppercase`: the result depends on the characters alone.
#[verifier::external_body]
pub fn to_uppercase(s: &str) -> (r: String)
    ensures
        r@ == upper_of(s@),
{
    s.to_uppercase()
}

/// Relies on `String: FromIterator<char>`: the text made of these characters.
#[verifier::external_body]
pub fn string_of(v: &Vec<char>) -> (r: String)
    ensures
        r@ == v@,
{
    v.iter().collect()
}

/// Relies on `Path::file_name`: the last component of a path, if it names a file.
#[verifier::external_body]
pub fn file_name(path: &str) -> (r: Option<String>)
    ensures
        opt_view(r) == name_of(path@),
{
    std::path::Path::new(path).file_name().and_then(|s| s.to_str()).map(|s| s.to_string())
}

/// Relies on `regex::Regex::new` and `Regex::captures`: groups 1 and 2 of the
/// leftmost match.
#[verifier::external_body]
pub fn capture_groups(pattern: &str, text: &str) -> (r: Option<(Option<String>, Option<String>)>)
    ensures
        match r {
            Some((a, b)) => regex_capture(pattern@, text@) == Some((opt_view(a), opt_view(b))),
            None => regex_capture(pattern@, text@) is None,
        },
{
    match regex::Regex::new(pattern) {
        Ok(re) => re.captures(text).map(
            |c| (c.get(1).map(|m| m.as_str().to_string()), c.get(2).map(|m| m.as_str().to_string())),
        ),
        Err(_) => None,
    }
}

/// Relies on chrono's `NaiveDateTime::parse_from_str`, read as seconds since 1970
/// through `and_utc().timestamp()`; chrono's dates span years -262143 to 262142.
#[verifier::external_body]
pub fn parse_time(text: &str, format: &str) -> (r: Option<i64>)
    ensures
        r == parsed_time(text@, format@),
        r matches Some(t) ==> -TIME_LIMIT <= t <= TIME_LIMIT,
{
    chrono::NaiveDateTime::parse_from_str(text, format).ok().map(|d| d.and_utc().timestamp())
}

/// Relies on chrono's `DateTime::from_timestamp` and `format`; `None` where the
/// instant is out of chrono's range or the format does not render.
#[verifier::external_body]
pub fn format_time(secs: i64, format: &str) -> (r: Option<String>)
    ensures
        opt_view(r) == formatted_time(secs, format@),
{
    let d = chrono::DateTime::from_timestamp(secs, 0)?;
    let mut s = String::new();
    match write!(s, "{}", d.naive_utc().format(format)) {
        Ok(()) => Some(s),
        Err(_) => None,
    }
}

/// Relies on `slice::sort_unstable`: the same values, in ascending order.
#[verifier::external_body]
pub fn sort_times(v: &mut Vec<i64>)
    ensures
        final(v)@.to_multiset() == old(v)@.to_multiset(),
        forall|i: int, j: int| 0 <= i <= j < final(v)@.len() ==> final(v)@[i] <= final(v)@[j],
{
    v.sort_unstable()
}

} // verus!
