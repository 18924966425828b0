//! The trusted boundary to calendar text: HTTP-dates and RFC 2822.
//!
//! The service's own stamp format is verified in full; the two interchange
//! formats — the `Last-Modified`/`If-Modified-Since` HTTP-date and the
//! RFC 2822 text of the `.timestamp` side file — are read and written by
//! outside crates.  Every instant that enters through them is validated by
//! [`utc_from_unix`], which re-checks the civil fields against the verified
//! epoch arithmetic before accepting them.  Both crates handle exactly the
//! seconds of years 0 through 9999 — the range `lemma_unix_secs_bounds`
//! proves every valid [`UtcTime`] to lie in — so the readers here are
//! complete: text naming a second in that range never fails to come back as
//! an instant, and the writers always produce text.

use vstd::prelude::*;
use crate::time::{fields_valid, lemma_unix_secs_bounds, spec_unix_secs, UtcTime};

verus! {

/// The first second of year 10000; one past the largest second a valid
/// instant can spell.
pub open spec fn max_calendar_secs() -> int {
    253402300800
}

/// The first second of year 0; the smallest second a valid instant can
/// spell.
pub open spec fn min_calendar_secs() -> int {
    -62167219200
}

/// Relies on chrono's `DateTime::from_timestamp` with the `Datelike` and
/// `Timelike` accessors: the proleptic-Gregorian civil UTC fields of a Unix
/// instant (chrono counts no leap seconds, as this crate's own epoch
/// arithmetic does).  For any second of years 0 through 9999 — well inside
/// chrono's own range — the fields come back, form a valid calendar instant,
/// and spell exactly the asked-for second.
#[verifier::external_body]
fn civil_from_unix(secs: i64) -> (r: Option<(i32, u8, u8, u8, u8, u8)>)
    ensures
        match r {
            Some(f) => min_calendar_secs() <= secs < max_calendar_secs() ==> {
                &&& 0 <= f.0 <= 9999
                &&& fields_valid(f.0 as u16, f.1, f.2, f.3, f.4, f.5)
                &&& spec_unix_secs(
                    UtcTime {
                        year: f.0 as u16,
                        month: f.1,
                        day: f.2,
                        hour: f.3,
                        minute: f.4,
                        second: f.5,
                    },
                ) == secs
            },
            None => !(min_calendar_secs() <= secs < max_calendar_secs()),
        },
{
    chrono::DateTime::from_timestamp(secs, 0).map(
        |dt| (
            chrono::Datelike::year(&dt),
            chrono::Datelike::month(&dt) as u8,
            chrono::Datelike::day(&dt) as u8,
            chrono::Timelike::hour(&dt) as u8,
            chrono::Timelike::minute(&dt) as u8,
            chrono::Timelike::second(&dt) as u8,
        ),
    )
}

/// The civil UTC instant of a Unix timestamp: exactly the seconds of years
/// 0 through 9999 yield an instant, and a yielded instant is valid and
/// spells exactly the asked-for second.  Whatever the calendar library
/// answers is validated and re-checked against the verified epoch
/// arithmetic before it is accepted.
pub fn utc_from_unix(secs: i64) -> (r: Option<UtcTime>)
    ensures
        match r {
            Some(t) => t.valid() && spec_unix_secs(t) == secs,
            None => true,
        },
        r is Some <==> min_calendar_secs() <= secs < max_calendar_secs(),
{
    let out = match civil_from_unix(secs) {
        None => None,
        Some((year, month, day, hour, minute, second)) => {
            if year < 0 || year > 9999 {
                None
            } else {
                match UtcTime::make(year as u16, month, day, hour, minute, second) {
                    None => None,
                    Some(t) => {
                        if t.to_unix_seconds() == secs {
                            Some(t)
                        } else {
                            None
                        }
                    },
                }
            }
        },
    };
    proof {
        match out {
            Some(t) => lemma_unix_secs_bounds(t),
            None => (),
        }
    }
    out
}

/// What `httpdate` reads out of an HTTP-date, as Unix seconds.  A function
/// of the text alone.
pub uninterp spec fn http_date_unix(s: Seq<char>) -> Option<int>;

/// Relies on httpdate's `parse_http_date`: reads an HTTP-date (RFC 7231;
/// also the obsolete RFC 850 and asctime forms) into Unix seconds.  The
/// parser accepts only four-digit years 1970 through 9999, so a parsed
/// instant always lies in the calendar range.
#[verifier::external_body]
fn parse_http_date_secs(s: &str) -> (r: Option<i64>)
    ensures
        match (r, http_date_unix(s@)) {
            (Some(n), Some(m)) => n as int == m && 0 <= n < max_calendar_secs(),
            (None, None) => true,
            _ => false,
        },
{
    httpdate::parse_http_date(s).ok().map(
        |t| match t.duration_since(std::time::UNIX_EPOCH) {
            Ok(d) => d.as_secs() as i64,
            Err(e) => -(e.duration().as_secs() as i64),
        },
    )
}

/// Reads an HTTP-date into a validated instant: the text parses exactly
/// when [`http_date_unix`] gives it a meaning, and the instant spells
/// exactly the second the text named.
pub fn parse_http_date_utc(s: &str) -> (r: Option<UtcTime>)
    ensures
        match r {
            Some(t) => t.valid() && http_date_unix(s@) == Some(spec_unix_secs(t)),
            None => http_date_unix(s@) is None,
        },
{
    match parse_http_date_secs(s) {
        None => None,
        Some(n) => utc_from_unix(n),
    }
}

/// What `httpdate` writes for a Unix instant.  A function of the second
/// alone.
pub uninterp spec fn http_date_text(secs: int) -> Seq<char>;

/// Relies on httpdate's `fmt_http_date`: writes a Unix instant as an
/// RFC 7231 HTTP-date, e.g. `Mon, 01 Apr 2024 00:00:00 GMT`.  The bound
/// keeps the call away from `HttpDate`'s refusal of years 10000 and up,
/// which does not return.
#[verifier::external_body]
fn format_http_date_secs(secs: u64) -> (r: String)
    requires
        secs < max_calendar_secs(),
    ensures
        r@ == http_date_text(secs as int),
{
    httpdate::fmt_http_date(std::time::UNIX_EPOCH + std::time::Duration::from_secs(secs))
}

/// Writes an instant as an HTTP-date; instants before the Unix epoch have
/// none.
pub fn http_date_of(t: &UtcTime) -> (r: Option<String>)
    requires
        t.valid(),
    ensures
        match r {
            Some(s) => spec_unix_secs(*t) >= 0 && s@ == http_date_text(spec_unix_secs(*t)),
            None => spec_unix_secs(*t) < 0,
        },
{
    proof {
        lemma_unix_secs_bounds(*t);
    }
    let n: i64 = t.to_unix_seconds();
    if n >= 0 {
        Some(format_http_date_secs(n as u64))
    } else {
        None
    }
}

/// What chrono writes for a Unix instant in RFC 2822 form.  A function of
/// the second alone.
pub uninterp spec fn rfc2822_text(secs: int) -> Seq<char>;

/// What chrono reads out of RFC 2822 text, as Unix seconds.  A function of
/// the text alone.
pub uninterp spec fn rfc2822_unix(s: Seq<char>) -> Option<int>;

/// Relies on chrono's `DateTime::to_rfc2822` over `from_timestamp`: writes
/// a Unix instant as RFC 2822 text, e.g. `Mon, 1 Apr 2024 00:00:00 +0000`.
/// The bound keeps the call inside years 0 through 9999, the only years
/// RFC 2822 text can carry — outside them the formatter does not return —
/// and there chrono reads its own output back as the same second: the
/// round trip of the side file.
#[verifier::external_body]
fn format_rfc2822_secs(secs: i64) -> (r: String)
    requires
        min_calendar_secs() <= secs < max_calendar_secs(),
    ensures
        r@ == rfc2822_text(secs as int),
        rfc2822_unix(r@) == Some(secs as int),
{
    chrono::DateTime::from_timestamp(secs, 0).map(|dt| dt.to_rfc2822()).unwrap_or_default()
}

/// Writes an instant as the RFC 2822 text kept in the `.timestamp` side
/// file.  Reading the text back (see [`parse_rfc2822_utc`]) names the same
/// second, and by `lemma_unix_secs_injective` the same second means the
/// very same instant: the side file survives its write/read cycle.
pub fn rfc2822_of(t: &UtcTime) -> (r: String)
    requires
        t.valid(),
    ensures
        r@ == rfc2822_text(spec_unix_secs(*t)),
        rfc2822_unix(r@) == Some(spec_unix_secs(*t)),
{
    proof {
        lemma_unix_secs_bounds(*t);
    }
    format_rfc2822_secs(t.to_unix_seconds())
}

/// Relies on chrono's `DateTime::parse_from_rfc2822`: reads RFC 2822 text
/// into Unix seconds.
#[verifier::external_body]
fn parse_rfc2822_secs(s: &str) -> (r: Option<i64>)
    ensures
        match (r, rfc2822_unix(s@)) {
            (Some(n), Some(m)) => n as int == m,
            (None, None) => true,
            _ => false,
        },
{
    chrono::DateTime::parse_from_rfc2822(s).ok().map(|dt| dt.with_timezone(&chrono::Utc).timestamp())
}

/// Reads the `.timestamp` side file's text into a validated instant: the
/// read fails only when the text names no second at all, or one outside
/// years 0 through 9999; a yielded instant spells exactly the second the
/// text named, per [`rfc2822_unix`].
pub fn parse_rfc2822_utc(s: &str) -> (r: Option<UtcTime>)
    ensures
        match r {
            Some(t) => t.valid() && rfc2822_unix(s@) == Some(spec_unix_secs(t)),
            None => match rfc2822_unix(s@) {
                None => true,
                Some(n) => !(min_calendar_secs() <= n < max_calendar_secs()),
            },
        },
{
    match parse_rfc2822_secs(s) {
        None => None,
        Some(n) => utc_from_unix(n),
    }
}

} // verus!
