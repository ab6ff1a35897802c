//! HTTP dates.
//!
//! Timestamps are carried as whole seconds since the Unix epoch; `httpdate`
//! does the formatting to and parsing from the IMF-fixdate header form.

use vstd::prelude::*;

verus! {

/// Timestamps from this value on (the first second of the year 10000)
/// cannot be written as an HTTP date.
pub const HTTP_DATE_LIMIT: u64 = 253402300800;

/// The IMF-fixdate form of a timestamp, e.g. `Sun, 06 Nov 1994 08:49:37 GMT`.
pub uninterp spec fn http_date_string(secs: u64) -> Seq<char>;

/// Relies on `httpdate::fmt_http_date`: the IMF-fixdate form of a timestamp.
/// It panics from the year 10000 on, so the bound is required here.
#[verifier::external_body]
fn fmt_http_date_secs(secs: u64) -> (r: String)
    requires
        secs < HTTP_DATE_LIMIT,
    ensures
        r@ == http_date_string(secs),
{
    httpdate::fmt_http_date(
        std::time::UNIX_EPOCH + std::time::Duration::from_secs(secs),
    )
}

/// The timestamp an HTTP-date header value denotes, if it is a well-formed
/// date of 1970 or later.
pub uninterp spec fn http_date_value(s: Seq<char>) -> Option<u64>;

/// Relies on `httpdate::parse_http_date`: the timestamp of a well-formed
/// HTTP date (IMF-fixdate, RFC 850 or asctime form).  Parsed dates lie
/// between 1970 and 9999, so the subtraction from the epoch cannot fail.
#[verifier::external_body]
fn parse_http_date_secs(s: &str) -> (r: Option<u64>)
    ensures
        r == http_date_value(s@),
{
    httpdate::parse_http_date(s)
        .ok()
        .and_then(|t| t.duration_since(std::time::UNIX_EPOCH).ok())
        .map(|d| d.as_secs())
}

/// The `Last-Modified` header value for a timestamp: its IMF-fixdate form,
/// or nothing for a timestamp too large to format (from the year 10000 on),
/// in which case the header is omitted rather than failing the response.
pub open spec fn spec_last_modified_header(secs: u64) -> Option<Seq<char>> {
    if secs < HTTP_DATE_LIMIT {
        Some(http_date_string(secs))
    } else {
        None
    }
}

/// Formats a timestamp for the `Last-Modified` header, omitting it when the
/// timestamp cannot be written as an HTTP date.
pub fn format_last_modified(secs: u64) -> (r: Option<String>)
    ensures
        match r {
            Some(s) => spec_last_modified_header(secs) == Some(s@),
            None => spec_last_modified_header(secs) is None,
        },
{
    if secs < HTTP_DATE_LIMIT {
        Some(fmt_http_date_secs(secs))
    } else {
        None
    }
}

/// Reads an `If-Modified-Since` header value as a timestamp; a value that is
/// not a well-formed HTTP date is ignored.
pub fn parse_if_modified_since(value: Option<&str>) -> (r: Option<u64>)
    ensures
        r == (match value {
            Some(s) => http_date_value(s@),
            None => None::<u64>,
        }),
{
    match value {
        Some(s) => parse_http_date_secs(s),
        None => None,
    }
}

} // verus!
