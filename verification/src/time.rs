//! Instants in UTC and their textual forms.
use vstd::prelude::*;
use chrono::{DateTime, Datelike, Local, Timelike, Utc};
use crate::text::{padded, push_padded};

verus! {

/// chrono can represent the instant `secs` seconds (plus `nanos`
/// nanoseconds, a leap second when at least 10^9) after the UNIX epoch:
/// `DateTime::<Utc>::from_timestamp(secs, nanos)` returns `Some`.
pub uninterp spec fn chrono_instant(secs: i64, nanos: u32) -> bool;

/// The instant that `DateTime::parse_from_rfc3339` reads from a string,
/// converted to UTC, as (seconds, nanoseconds) since the UNIX epoch.
pub uninterp spec fn rfc3339_instant(text: Seq<char>) -> Option<(i64, u32)>;

/// chrono's `format("%Y%m%dT%H%M%S%.3fZ")` of the UTC instant.
pub uninterp spec fn utc_stamp_text(secs: i64, nanos: u32) -> Seq<char>;

/// chrono's `to_rfc3339()` of the UTC instant.
pub uninterp spec fn rfc3339_text(secs: i64, nanos: u32) -> Seq<char>;

/// An instant in UTC, held as chrono holds it: whole seconds since the UNIX
/// epoch and the nanoseconds past them.
#[derive(Debug, PartialEq, Eq)]
pub struct Timestamp {
    secs: i64,
    nanos: u32,
}

impl Timestamp {
    /// Every `Timestamp` is an instant that chrono can represent.
    #[verifier::type_invariant]
    pub open spec fn representable(self) -> bool {
        chrono_instant(self.unix_secs(), self.subsec_nanos())
    }

    /// Seconds since the UNIX epoch.
    pub closed spec fn unix_secs(self) -> i64 {
        self.secs
    }

    /// Nanoseconds past `unix_secs`.
    pub closed spec fn subsec_nanos(self) -> u32 {
        self.nanos
    }

    /// The instant `secs` seconds and `nanos` nanoseconds after the UNIX
    /// epoch, if chrono can represent it.
    pub fn from_unix(secs: i64, nanos: u32) -> (r: Option<Timestamp>)
        ensures
            r is Some <==> chrono_instant(secs, nanos),
            r matches Some(t) ==> t.unix_secs() == secs && t.subsec_nanos() == nanos,
    {
        timestamp_from_unix(secs, nanos)
    }

    /// Seconds since the UNIX epoch.
    pub fn secs(&self) -> (r: i64)
        ensures
            r == self.unix_secs(),
    {
        self.secs
    }

    /// Nanoseconds past the whole second.
    pub fn nanos(&self) -> (r: u32)
        ensures
            r == self.subsec_nanos(),
    {
        self.nanos
    }

    /// `self` comes strictly after `other` (chrono's order on `DateTime`).
    pub fn is_after(&self, other: &Timestamp) -> (r: bool)
        ensures
            r == other.before(*self),
    {
        self.secs > other.secs || (self.secs == other.secs && self.nanos > other.nanos)
    }

    /// Strict order of instants: by seconds, then by nanoseconds.
    pub open spec fn before(self, other: Timestamp) -> bool {
        self.unix_secs() < other.unix_secs() || (self.unix_secs() == other.unix_secs()
            && self.subsec_nanos() < other.subsec_nanos())
    }

    /// Calls chrono's `format("%Y%m%dT%H%M%S%.3fZ")` on the instant. Every
    /// `Timestamp` is representable, so `from_timestamp` gives it back.
    #[verifier::external_body]
    pub(crate) fn utc_stamp(&self) -> (r: String)
        requires
            chrono_instant(self.unix_secs(), self.subsec_nanos()),
        ensures
            r@ == utc_stamp_text(self.unix_secs(), self.subsec_nanos()),
    {
        DateTime::<Utc>::from_timestamp(self.secs, self.nanos)
            .expect("a Timestamp is representable")
            .format("%Y%m%dT%H%M%S%.3fZ")
            .to_string()
    }

    /// Calls chrono's `to_rfc3339()` on the instant. Every `Timestamp` is
    /// representable, so `from_timestamp` gives it back.
    #[verifier::external_body]
    pub(crate) fn to_rfc3339(&self) -> (r: String)
        requires
            chrono_instant(self.unix_secs(), self.subsec_nanos()),
        ensures
            r@ == rfc3339_text(self.unix_secs(), self.subsec_nanos()),
    {
        DateTime::<Utc>::from_timestamp(self.secs, self.nanos)
            .expect("a Timestamp is representable")
            .to_rfc3339()
    }
}

/// Calls `DateTime::<Utc>::from_timestamp`: an instant exists exactly when
/// chrono accepts the pair, and then it holds the pair.
#[verifier::external_body]
fn timestamp_from_unix(secs: i64, nanos: u32) -> (r: Option<Timestamp>)
    ensures
        r is Some <==> chrono_instant(secs, nanos),
        r matches Some(t) ==> t.unix_secs() == secs && t.subsec_nanos() == nanos,
{
    DateTime::<Utc>::from_timestamp(secs, nanos).map(|_| Timestamp { secs, nanos })
}

/// Calls `DateTime::parse_from_rfc3339` and converts the result to UTC
/// seconds and nanoseconds; the contract names the result. chrono documents
/// that a `DateTime`'s seconds and nanoseconds are accepted back by
/// `from_timestamp`, so the instant is representable.
#[verifier::external_body]
pub(crate) fn parse_rfc3339(text: &str) -> (r: Option<Timestamp>)
    ensures
        r matches Some(t) ==> rfc3339_instant(text@) == Some((t.unix_secs(), t.subsec_nanos())),
        r is None ==> rfc3339_instant(text@) is None,
{
    DateTime::parse_from_rfc3339(text).ok().map(|d| {
        let u = d.with_timezone(&Utc);
        Timestamp { secs: u.timestamp(), nanos: u.timestamp_subsec_nanos() }
    })
}

/// Calendar fields of an instant in the machine's local time zone.
#[derive(Debug)]
pub struct LocalTime {
    pub year: i32,
    pub month: u32,
    pub day: u32,
    pub hour: u32,
    pub minute: u32,
}

/// The proleptic Gregorian (year, month, day) of the day `z` days after
/// 1970-01-01 (days counted in eras of 400 years that start on March 1).
pub open spec fn civil_from_days(z: int) -> (int, int, int) {
    let z = z + 719468;
    let era = z / 146097;
    let doe = z - era * 146097;
    let yoe = (doe - doe / 1460 + doe / 36524 - doe / 146096) / 365;
    let doy = doe - (365 * yoe + yoe / 4 - yoe / 100);
    let mp = (5 * doy + 2) / 153;
    let d = doy - (153 * mp + 2) / 5 + 1;
    let m = if mp < 10 {
        mp + 3
    } else {
        mp - 9
    };
    let y = yoe + era * 400;
    (if m <= 2 {
        y + 1
    } else {
        y
    }, m, d)
}

/// The (year, month, day, hour, minute) that a clock shows `w` seconds after
/// 1970-01-01 00:00, counting no leap seconds.
pub open spec fn civil_of(w: int) -> (int, int, int, int, int) {
    let (y, m, d) = civil_from_days(w / 86400);
    let s = w % 86400;
    (y, m, d, s / 3600, s % 3600 / 60)
}

/// The calendar fields of a `LocalTime`, as integers.
pub open spec fn fields_of(t: LocalTime) -> (int, int, int, int, int) {
    (t.year as int, t.month as int, t.day as int, t.hour as int, t.minute as int)
}

/// `t` is what a clock shows at the instant `secs` seconds after the UNIX
/// epoch in some time zone whose offset from UTC is less than a day: the
/// clock reads `w` seconds after 1970-01-01 00:00 for some `w` less than a
/// day away from `secs`.
pub open spec fn shows_within_a_day(t: LocalTime, secs: int) -> bool {
    exists|w: int| -86400 < w - secs < 86400 && fields_of(t) == #[trigger] civil_of(w)
}

/// Calls chrono's `with_timezone(&Local)` and reads the calendar fields.
/// chrono computes the local time as the UTC wall clock shifted by the
/// zone's `FixedOffset` at that instant, and a `FixedOffset` is less than a
/// day in either direction. Which offset applies depends on the machine's
/// time zone, so the contract only says that some such offset gives the
/// fields.
#[verifier::external_body]
pub(crate) fn local_time_of(ts: &Timestamp) -> (r: LocalTime)
    requires
        chrono_instant(ts.unix_secs(), ts.subsec_nanos()),
    ensures
        shows_within_a_day(r, ts.unix_secs() as int),
        1 <= r.month <= 12,
        1 <= r.day <= 31,
        r.hour <= 23,
        r.minute <= 59,
{
    let l = DateTime::<Utc>::from_timestamp(ts.secs, ts.nanos)
        .expect("a Timestamp is representable")
        .with_timezone(&Local);
    LocalTime { year: l.year(), month: l.month(), day: l.day(), hour: l.hour(), minute: l.minute() }
}

// ---------------------------------------------------------------------------
// Decimal rendering of calendar fields
// ---------------------------------------------------------------------------

/// chrono's `%Y`: four zero-padded digits for years 0 to 9999, otherwise a
/// sign followed by at least four digits.
pub open spec fn year_text(y: int) -> Seq<char> {
    if 0 <= y <= 9999 {
        padded(y as nat, 4)
    } else if y < 0 {
        seq!['-'] + padded((-y) as nat, 4)
    } else {
        seq!['+'] + padded(y as nat, 4)
    }
}

/// `YYYY-MM-DD HH:MM` for the given calendar fields.
pub open spec fn short_text(t: LocalTime) -> Seq<char> {
    year_text(t.year as int) + seq!['-'] + padded(t.month as nat, 2) + seq!['-'] + padded(
        t.day as nat,
        2,
    ) + seq![' '] + padded(t.hour as nat, 2) + seq![':'] + padded(t.minute as nat, 2)
}

/// `YYYY-MM-DD HH:MM` for the clock `w` seconds after 1970-01-01 00:00.
pub open spec fn wall_clock_text(w: int) -> Seq<char> {
    let (y, mo, d, h, mi) = civil_of(w);
    year_text(y) + seq!['-'] + padded(mo as nat, 2) + seq!['-'] + padded(d as nat, 2) + seq![' ']
        + padded(h as nat, 2) + seq![':'] + padded(mi as nat, 2)
}

/// Append chrono's `%Y` rendering of `year` to `out`.
fn push_year(out: &mut Vec<char>, year: i32)
    ensures
        final(out)@ == old(out)@ + year_text(year as int),
{
    let y: i64 = year as i64;
    if 0 <= y && y <= 9999 {
        push_padded(out, y as u64, 4);
    } else if y < 0 {
        let ghost start = out@;
        out.push('-');
        push_padded(out, (-y) as u64, 4);
        assert(out@ == start + (seq!['-'] + padded((-y) as nat, 4)));
    } else {
        let ghost start = out@;
        out.push('+');
        push_padded(out, y as u64, 4);
        assert(out@ == start + (seq!['+'] + padded(y as nat, 4)));
    }
}

/// Render calendar fields as `YYYY-MM-DD HH:MM`.
pub fn short_local_text(t: &LocalTime) -> (r: String)
    ensures
        r@ == short_text(*t),
{
    let mut v: Vec<char> = Vec::new();
    push_year(&mut v, t.year);
    v.push('-');
    push_padded(&mut v, t.month as u64, 2);
    v.push('-');
    push_padded(&mut v, t.day as u64, 2);
    v.push(' ');
    push_padded(&mut v, t.hour as u64, 2);
    v.push(':');
    push_padded(&mut v, t.minute as u64, 2);
    assert(v@ == short_text(*t));
    crate::text::string_of(&v)
}

} // verus!
