//! Instants as whole seconds and nanoseconds since the Unix epoch, and the
//! calendar work on them that `chrono` does: reading and writing RFC 2822
//! dates, reading the database's date formats, comparing instants.
use vstd::prelude::*;

verus! {

/// An instant: seconds since 1970-01-01T00:00:00Z and the nanoseconds within
/// that second. Nanoseconds of a leap second run from 10^9 up to 2·10^9.
#[derive(Clone, Copy, Debug, PartialEq, Eq, Structural)]
pub struct Timestamp {
    pub secs: i64,
    pub nanos: u32,
}

/// Earliest second a `chrono` UTC date-time can hold (1 January of year -262143).
pub const CHRONO_MIN_SECS: i64 = -8334601228800;
/// Latest second a `chrono` UTC date-time can hold (31 December of year 262142).
pub const CHRONO_MAX_SECS: i64 = 8210266876799;
/// First second of year 0.
pub const RFC2822_MIN_SECS: i64 = -62167219200;
/// Last second of year 9999.
pub const RFC2822_MAX_SECS: i64 = 253402300799;

/// `t` is an instant `chrono` can hold: within its calendar range, with a
/// sub-second part below one second except during a leap second (the last
/// second of a minute).
pub open spec fn chrono_instant(t: Timestamp) -> bool {
    &&& CHRONO_MIN_SECS <= t.secs <= CHRONO_MAX_SECS
    &&& (t.nanos < 1_000_000_000 || (t.nanos < 2_000_000_000 && (t.secs as int) % 60 == 59))
}

/// `t` is an instant RFC 2822 can write: a `chrono` instant in the years 0 to 9999.
pub open spec fn rfc2822_instant(t: Timestamp) -> bool {
    &&& chrono_instant(t)
    &&& RFC2822_MIN_SECS <= t.secs <= RFC2822_MAX_SECS
}

/// The instant that the RFC 2822 date `s` denotes, if `s` is one
/// (`DateTime::parse_from_rfc2822`, taken to UTC).
pub uninterp spec fn rfc2822_parse(s: Seq<char>) -> Option<Timestamp>;

/// The difference `a - b` that `chrono`'s subtraction of date-times gives,
/// as whole seconds and the nanoseconds beyond them.
pub uninterp spec fn chrono_difference(a: Timestamp, b: Timestamp) -> (i64, i32);

/// A difference of whole seconds and nanoseconds, in nanoseconds.
pub open spec fn difference_nanos(d: (i64, i32)) -> int {
    d.0 * 1_000_000_000 + d.1
}

/// The RFC 2822 text of the UTC instant `t` (`DateTime::to_rfc2822`).
pub uninterp spec fn rfc2822_text(t: Timestamp) -> Seq<char>;

/// The instant that `s` denotes as a date-time with offset, relaxed
/// RFC 3339 (`str::parse::<DateTime<Utc>>`).
pub uninterp spec fn utc_parse(s: Seq<char>) -> Option<Timestamp>;

/// The instant that `s` denotes in the `strftime`-style format `fmt`, read
/// as UTC (`NaiveDateTime::parse_from_str`, then `and_utc`).
pub uninterp spec fn naive_utc_parse(s: Seq<char>, fmt: Seq<char>) -> Option<Timestamp>;

/// The format of dates the database writes without an offset.
pub const DB_DATE_FORMAT: &'static str = "%Y-%m-%d %H:%M:%S%.f";

/// The RFC 3339 text of the UTC instant `t` (`DateTime::to_rfc3339`).
pub uninterp spec fn rfc3339_text(t: Timestamp) -> Seq<char>;

/// The error `chrono` reports for text it cannot read as a date.
#[verifier::external_type_specification]
#[verifier::external_body]
pub struct ExChronoParseError(chrono::ParseError);

/// Reads an RFC 2822 date with `chrono::DateTime::parse_from_rfc2822` and
/// takes it to UTC. Claimed: the result is the one `rfc2822_parse` names
/// for the text, and a date-time `chrono` holds is always a `chrono_instant`.
#[verifier::external_body]
pub(crate) fn parse_rfc2822(s: &str) -> (r: Option<Timestamp>)
    ensures
        r == rfc2822_parse(s@),
        r matches Some(t) ==> chrono_instant(t),
{
    match chrono::DateTime::parse_from_rfc2822(s) {
        Ok(d) => {
            let u = d.with_timezone(&chrono::Utc);
            Some(Timestamp { secs: u.timestamp(), nanos: u.timestamp_subsec_nanos() })
        },
        Err(_) => None,
    }
}

/// Subtracts two `chrono` UTC date-times (`DateTime - DateTime`) and gives
/// the difference as `TimeDelta::num_seconds` and `subsec_nanos`. Claimed:
/// the result is `chrono_difference(a, b)`; the nanoseconds are below one
/// second either way; and, as `NaiveDateTime::signed_duration_since`
/// shows, outside leap seconds the difference is the plain one. The
/// instants must be ones `chrono` holds, or building them would fail.
#[verifier::external_body]
pub(crate) fn signed_difference(a: Timestamp, b: Timestamp) -> (r: (i64, i32))
    requires
        chrono_instant(a),
        chrono_instant(b),
    ensures
        r == chrono_difference(a, b),
        -1_000_000_000 < r.1 < 1_000_000_000,
        a.nanos < 1_000_000_000 && b.nanos < 1_000_000_000 ==> difference_nanos(r) == (a.secs
            - b.secs) * 1_000_000_000 + a.nanos - b.nanos,
{
    let a = chrono::DateTime::from_timestamp(a.secs, a.nanos).unwrap();
    let b = chrono::DateTime::from_timestamp(b.secs, b.nanos).unwrap();
    let d = a - b;
    (d.num_seconds(), d.subsec_nanos())
}

/// Writes a UTC instant with `chrono::DateTime::to_rfc2822`. Claimed: the
/// text is `rfc2822_text(t)`; `chrono` panics outside the years 0 to 9999,
/// which the precondition leaves out.
#[verifier::external_body]
pub(crate) fn to_rfc2822(t: Timestamp) -> (r: String)
    requires
        rfc2822_instant(t),
    ensures
        r@ == rfc2822_text(t),
{
    chrono::DateTime::from_timestamp(t.secs, t.nanos).unwrap().to_rfc2822()
}

/// Reads `s` with `str::parse::<chrono::DateTime<chrono::Utc>>`. Claimed:
/// it succeeds exactly when `utc_parse` names an instant, and gives that one.
#[verifier::external_body]
fn parse_utc(s: &str) -> (r: Result<Timestamp, chrono::ParseError>)
    ensures
        r is Ok <==> utc_parse(s@) is Some,
        r matches Ok(t) ==> utc_parse(s@) == Some(t),
{
    match s.parse::<chrono::DateTime<chrono::Utc>>() {
        Ok(u) => Ok(Timestamp { secs: u.timestamp(), nanos: u.timestamp_subsec_nanos() }),
        Err(e) => Err(e),
    }
}

/// Reads `s` with `chrono::NaiveDateTime::parse_from_str` in the format
/// `fmt` and takes it as UTC. Claimed: it succeeds exactly when
/// `naive_utc_parse` names an instant, and gives that one.
#[verifier::external_body]
fn parse_naive_utc(s: &str, fmt: &str) -> (r: Result<Timestamp, chrono::ParseError>)
    ensures
        r is Ok <==> naive_utc_parse(s@, fmt@) is Some,
        r matches Ok(t) ==> naive_utc_parse(s@, fmt@) == Some(t),
{
    match chrono::NaiveDateTime::parse_from_str(s, fmt) {
        Ok(n) => {
            let u = n.and_utc();
            Ok(Timestamp { secs: u.timestamp(), nanos: u.timestamp_subsec_nanos() })
        },
        Err(e) => Err(e),
    }
}

/// Writes a UTC instant with `chrono::DateTime::to_rfc3339`, as dates are
/// stored in the index. Claimed: the text is `rfc3339_text(t)`, and reading
/// it back with `str::parse::<DateTime<Utc>>` gives the same instant: the
/// writer prints every digit of the fraction, a sign and all digits of a
/// year outside 0 to 9999, and a leap second as second 60, and the reader
/// takes all of these. Building the date-time fails for instants `chrono`
/// cannot hold, which the precondition leaves out.
#[verifier::external_body]
pub(crate) fn to_rfc3339(t: Timestamp) -> (r: String)
    requires
        chrono_instant(t),
    ensures
        r@ == rfc3339_text(t),
        utc_parse(r@) == Some(t),
{
    chrono::DateTime::from_timestamp(t.secs, t.nanos).unwrap().to_rfc3339()
}

/// A date stored in the database that could not be read.
#[derive(Debug)]
pub struct DbDateError(pub chrono::ParseError);

/// The instant a date read from the database denotes: a date-time with
/// offset first, else the plain `%Y-%m-%d %H:%M:%S%.f` format taken as UTC.
pub open spec fn spec_db_date(s: Seq<char>) -> Option<Timestamp> {
    match utc_parse(s) {
        Some(t) => Some(t),
        None => naive_utc_parse(s, DB_DATE_FORMAT@),
    }
}

/// Reads a date as the database stores it.
pub fn parse_db_date(date: &str) -> (r: Result<Timestamp, DbDateError>)
    ensures
        r is Ok <==> spec_db_date(date@) is Some,
        r matches Ok(t) ==> spec_db_date(date@) == Some(t),
{
    match parse_utc(date) {
        Ok(t) => Ok(t),
        Err(_) => match parse_naive_utc(date, DB_DATE_FORMAT) {
            Ok(t) => Ok(t),
            Err(e) => Err(DbDateError(e)),
        },
    }
}

} // verus!
