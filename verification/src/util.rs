//! Flexible timestamp parsing.
//!
//! Ingestion accepts timestamps in a few common shapes; they are tried in
//! order, and a parse without any zone information is read as UTC.  The
//! parses themselves are chrono's; each is named as a function of the text
//! and format alone, and the fallback order is verified against those names.

use vstd::prelude::*;

verus! {

/// What chrono's zone-aware parse yields for a text and a format, as
/// milliseconds since the Unix epoch.
pub uninterp spec fn zoned_parse_millis(s: Seq<char>, fmt: Seq<char>) -> Option<i64>;

/// What chrono's naive parse yields for a text and a format, read as UTC,
/// as milliseconds since the Unix epoch.
pub uninterp spec fn naive_parse_millis(s: Seq<char>, fmt: Seq<char>) -> Option<i64>;

/// Relies on chrono's `DateTime::parse_from_str` and `timestamp_millis`:
/// the result depends on the text and the format alone.
#[verifier::external_body]
fn parse_zoned_millis(s: &str, fmt: &str) -> (r: Option<i64>)
    ensures
        r == zoned_parse_millis(s@, fmt@),
{
    chrono::DateTime::parse_from_str(s, fmt).ok().map(|d| d.timestamp_millis())
}

/// Relies on chrono's `NaiveDateTime::parse_from_str`, `and_utc` and
/// `timestamp_millis`: the result depends on the text and the format alone.
#[verifier::external_body]
fn parse_naive_millis(s: &str, fmt: &str) -> (r: Option<i64>)
    ensures
        r == naive_parse_millis(s@, fmt@),
{
    chrono::NaiveDateTime::parse_from_str(s, fmt).ok().map(|d| d.and_utc().timestamp_millis())
}

/// What one format yields: the zone-aware parse wins over the naive one.
pub open spec fn spec_parse_one(s: Seq<char>, fmt: Seq<char>) -> Option<i64> {
    match zoned_parse_millis(s, fmt) {
        Some(t) => Some(t),
        None => naive_parse_millis(s, fmt),
    }
}

/// What the whole cascade yields: the first format that parses, in order.
pub open spec fn spec_flexible_parse(s: Seq<char>) -> Option<i64> {
    match spec_parse_one(s, "%Y-%m-%dT%H:%M:%S%.f%:z"@) {
        Some(t) => Some(t),
        None => match spec_parse_one(s, "%Y-%m-%dT%H:%M:%S%.fZ"@) {
            Some(t) => Some(t),
            None => spec_parse_one(s, "%Y-%m-%d %H:%M:%S%.f"@),
        },
    }
}

/// Try one format both ways.
fn parse_one(s: &str, fmt: &str) -> (r: Option<i64>)
    ensures
        r == spec_parse_one(s@, fmt@),
{
    match parse_zoned_millis(s, fmt) {
        Some(t) => Some(t),
        None => parse_naive_millis(s, fmt),
    }
}

/// Parse timestamps flexibly, to milliseconds since the Unix epoch.
/// Without any zone information, UTC is assumed.
pub fn flexible_timestamp_parse(ts: String) -> (r: Option<i64>)
    ensures
        r == spec_flexible_parse(ts@),
{
    match parse_one(ts.as_str(), "%Y-%m-%dT%H:%M:%S%.f%:z") {
        Some(t) => Some(t),
        None => match parse_one(ts.as_str(), "%Y-%m-%dT%H:%M:%S%.fZ") {
            Some(t) => Some(t),
            None => parse_one(ts.as_str(), "%Y-%m-%d %H:%M:%S%.f"),
        },
    }
}

} // verus!
