//! Client-supplied modification times.
use vstd::prelude::*;
use crate::engine::SyncError;

verus! {

/// chrono's parse error, carried as an opaque value.
#[verifier::external_type_specification]
#[verifier::external_body]
pub struct ExParseError(chrono::ParseError);

/// The Unix time, in seconds, that RFC 2822 text `s` denotes, if it is valid.
pub uninterp spec fn rfc2822_seconds(s: Seq<char>) -> Option<i64>;

/// Relies on `chrono::DateTime::parse_from_rfc2822` and `DateTime::timestamp`:
/// the seconds since the Unix epoch of a valid RFC 2822 date, or the parse error.
#[verifier::external_body]
fn parse_rfc2822(s: &str) -> (r: Result<i64, chrono::ParseError>)
    ensures
        r is Ok <==> rfc2822_seconds(s@) is Some,
        r matches Ok(t) ==> rfc2822_seconds(s@) == Some(t),
{
    match chrono::DateTime::parse_from_rfc2822(s) {
        Ok(d) => Ok(d.timestamp()),
        Err(e) => Err(e),
    }
}

/// Unix timestamp of an RFC 2822 date; text that is no such date is
/// invalid input.
pub fn conv_rfc2822_to_unix_timestamp(rfc2822: &str) -> (r: Result<i64, SyncError>)
    ensures
        match rfc2822_seconds(rfc2822@) {
            Some(t) => r == Ok::<i64, SyncError>(t),
            None => r == Err::<i64, SyncError>(SyncError::InvalidInput),
        },
{
    match parse_rfc2822(rfc2822) {
        Ok(t) => Ok(t),
        Err(_) => Err(SyncError::InvalidInput),
    }
}

} // verus!
