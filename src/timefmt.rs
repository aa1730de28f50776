use vstd::prelude::*;

use std::fmt::Write;

verus! {

/// The instant, in whole seconds since the Unix epoch, that chrono reads in
/// `text` with the strftime-like `format`, taken as UTC; `None` where it
/// reads none.
pub uninterp spec fn utc_seconds_of(text: Seq<char>, format: Seq<char>) -> Option<i64>;

/// What chrono writes for the UTC instant `millis` (milliseconds since the
/// Unix epoch) with the strftime-like `format`; `None` where it writes nothing.
pub uninterp spec fn formatted_utc_of(millis: i64, format: Seq<char>) -> Option<Seq<char>>;

/// Relies on chrono's `NaiveDateTime::parse_from_str`, read as UTC by
/// `and_utc().timestamp()`: the result depends on the two strings alone.
#[verifier::external_body]
pub(crate) fn parse_utc_seconds(text: &str, format: &str) -> (r: Option<i64>)
    ensures
        r == utc_seconds_of(text@, format@),
{
    chrono::NaiveDateTime::parse_from_str(text, format).ok().map(|t| t.and_utc().timestamp())
}

/// Relies on chrono's `DateTime::<Utc>::from_timestamp_millis` and `format`:
/// the result depends on the instant and the format alone. An instant out of
/// chrono's range, or a format it cannot write, gives `None`.
#[verifier::external_body]
pub(crate) fn format_utc_millis(millis: i64, format: &str) -> (r: Option<String>)
    ensures
        r matches Some(s) ==> formatted_utc_of(millis, format@) == Some(s@),
        r is None ==> formatted_utc_of(millis, format@) is None,
{
    let t = chrono::DateTime::<chrono::Utc>::from_timestamp_millis(millis)?;
    let mut s = String::new();
    write!(s, "{}", t.format(format)).ok()?;
    Some(s)
}

} // verus!
