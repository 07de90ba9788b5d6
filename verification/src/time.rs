//! Instants with the offset they were written in, and the date texts and
//! differences that `chrono` computes for them.

use vstd::prelude::*;

use chrono::{Offset, TimeZone, Timelike};

use crate::calendar::{civil_of, compact_date_text, exif_datetime_text};

verus! {

// ---------------------------------------------------------------------------
// Instants
// ---------------------------------------------------------------------------

/// One day before 0000-01-01T00:00:00Z.
pub open spec fn instant_min() -> int {
    -62167305600
}

/// One day after 9999-12-31T23:59:59Z.
pub open spec fn instant_max() -> int {
    253402387199
}

/// An instant as seconds since 1970-01-01T00:00:00Z, the nanoseconds past
/// that second (1_000_000_000 and more during a leap second), and the
/// offset east of UTC, in seconds, that it was written with.
pub struct InstantView {
    pub secs: int,
    pub nanos: int,
    pub offset: int,
}

pub open spec fn instant_in_range(v: InstantView) -> bool {
    &&& instant_min() <= v.secs <= instant_max()
    &&& 0 <= v.nanos < 2_000_000_000
    &&& -86400 < v.offset < 86400
}

/// A date and time with a fixed offset from UTC, as `chrono`'s
/// `DateTime<FixedOffset>` holds one written in RFC 3339.
#[derive(Clone, Copy, Debug, PartialEq, Eq)]
pub struct Timestamp {
    secs: i64,
    nanos: u32,
    offset: i32,
}

impl View for Timestamp {
    type V = InstantView;

    closed spec fn view(&self) -> InstantView {
        InstantView { secs: self.secs as int, nanos: self.nanos as int, offset: self.offset as int }
    }
}

/// What `DateTime::parse_from_rfc3339` yields for a text: seconds since the
/// epoch, nanoseconds, offset in seconds.
pub uninterp spec fn rfc3339_parts(text: Seq<char>) -> Option<(i64, u32, i32)>;

/// `chrono::DateTime::parse_from_rfc3339`. RFC 3339 years have four digits
/// and offsets are at most 23:59, so an instant it yields lies within a day
/// of the years 0000 to 9999; a leap second is the 59th second with a
/// billion nanoseconds added.
#[verifier::external_body]
fn parse_rfc3339_parts(text: &str) -> (r: Option<(i64, u32, i32)>)
    ensures
        r == rfc3339_parts(text@),
        r matches Some((s, n, o)) ==> instant_in_range(
            InstantView { secs: s as int, nanos: n as int, offset: o as int },
        ),
{
    chrono::DateTime::parse_from_rfc3339(text).ok().map(
        |d| (d.timestamp(), d.timestamp_subsec_nanos(), d.offset().local_minus_utc()),
    )
}

impl Timestamp {
    #[verifier::type_invariant]
    spec fn inv(self) -> bool {
        instant_in_range(self@)
    }

    /// The instant with these parts, when they are in range.
    pub fn new(secs: i64, nanos: u32, offset: i32) -> (r: Option<Timestamp>)
        ensures
            instant_in_range(InstantView { secs: secs as int, nanos: nanos as int, offset: offset as int }) <==> r is Some,
            r matches Some(t) ==> t@ == (InstantView { secs: secs as int, nanos: nanos as int, offset: offset as int }),
    {
        if -62167305600 <= secs && secs <= 253402387199 && nanos < 2_000_000_000 && -86400 < offset
            && offset < 86400 {
            Some(Timestamp { secs, nanos, offset })
        } else {
            None
        }
    }

    /// 1970-01-01T00:00:00Z.
    pub fn epoch() -> (r: Timestamp)
        ensures
            r@ == (InstantView { secs: 0, nanos: 0, offset: 0 }),
    {
        Timestamp { secs: 0, nanos: 0, offset: 0 }
    }

    /// The instant written in `text` in RFC 3339 form.
    pub fn parse_from_rfc3339(text: &str) -> (r: Option<Timestamp>)
        ensures
            match rfc3339_parts(text@) {
                None => r is None,
                Some((s, n, o)) => r matches Some(t) && t@ == (InstantView { secs: s as int, nanos: n as int, offset: o as int }),
            },
    {
        match parse_rfc3339_parts(text) {
            None => None,
            Some((s, n, o)) => Some(Timestamp { secs: s, nanos: n, offset: o }),
        }
    }

    pub fn utc_seconds(&self) -> (r: i64)
        ensures
            r == self@.secs,
            instant_in_range(self@),
    {
        proof {
            use_type_invariant(self);
        }
        self.secs
    }

    pub fn nanoseconds(&self) -> (r: u32)
        ensures
            r == self@.nanos,
            instant_in_range(self@),
    {
        proof {
            use_type_invariant(self);
        }
        self.nanos
    }

    pub fn offset_seconds(&self) -> (r: i32)
        ensures
            r == self@.offset,
            instant_in_range(self@),
    {
        proof {
            use_type_invariant(self);
        }
        self.offset
    }

    /// Whether `self` is later than `other`, as `chrono` orders instants.
    pub fn is_after(&self, other: &Timestamp) -> (r: bool)
        ensures
            r == instant_after(self@, other@),
    {
        self.secs > other.secs || (self.secs == other.secs && self.nanos > other.nanos)
    }

    /// `(self - other).num_minutes()`.
    pub fn minutes_since(&self, other: &Timestamp) -> (r: i64)
        ensures
            r == minutes_between(self@, other@),
    {
        proof {
            use_type_invariant(self);
            use_type_invariant(other);
        }
        whole_minutes(self.secs, self.nanos, other.secs, other.nanos)
    }
}

/// `a` is later than `b`: UTC second first, then nanoseconds.
pub open spec fn instant_after(a: InstantView, b: InstantView) -> bool {
    a.secs > b.secs || (a.secs == b.secs && a.nanos > b.nanos)
}

/// The nanoseconds `chrono` counts from the instant `b_secs` (plus
/// `b_nanos`) to `a_secs` (plus `a_nanos`). Each instant is read as a day
/// and a second of that day, and a leap second is one whose nanoseconds
/// are a billion and more. When `a`'s second of the day is the later one
/// and `b` is in a leap second, one second more is counted; when it is the
/// earlier one and `a` is in a leap second, one second less.
pub open spec fn nanos_between(a_secs: int, a_nanos: int, b_secs: int, b_nanos: int) -> int {
    let ta = a_secs % 86400;
    let tb = b_secs % 86400;
    let leap: int = if ta > tb && b_nanos >= 1_000_000_000 {
        1
    } else if ta < tb && a_nanos >= 1_000_000_000 {
        -1
    } else {
        0
    };
    (a_secs - b_secs + leap) * 1_000_000_000 + (a_nanos - b_nanos)
}

/// A span of `d` nanoseconds in whole minutes, rounded toward zero.
pub open spec fn whole_minutes_in(d: int) -> int {
    if d >= 0 {
        d / 60_000_000_000
    } else {
        -((-d) / 60_000_000_000)
    }
}

/// Whole minutes from `b` to `a`, as `chrono` subtracts instants.
pub open spec fn minutes_between(a: InstantView, b: InstantView) -> int {
    whole_minutes_in(nanos_between(a.secs, a.nanos, b.secs, b.nanos))
}

/// `chrono`'s `DateTime` subtraction, then `TimeDelta::num_minutes`. The
/// instants are built from their UTC second and nanoseconds. The
/// subtraction (`NaiveDateTime::signed_duration_since`) adds the day
/// difference to the difference of the seconds of the day, with one
/// second more or less where a leap second lies between them, and is
/// exact to the nanosecond; `num_minutes` divides its whole seconds,
/// rounded toward zero, by 60, rounding toward zero again.
#[verifier::external_body]
fn whole_minutes(a_secs: i64, a_nanos: u32, b_secs: i64, b_nanos: u32) -> (r: i64)
    requires
        instant_min() <= a_secs <= instant_max(),
        instant_min() <= b_secs <= instant_max(),
        a_nanos < 2_000_000_000,
        b_nanos < 2_000_000_000,
    ensures
        r == whole_minutes_in(nanos_between(a_secs as int, a_nanos as int, b_secs as int, b_nanos as int)),
{
    let a = chrono::DateTime::from_timestamp(a_secs, 0).unwrap().with_nanosecond(a_nanos).unwrap();
    let b = chrono::DateTime::from_timestamp(b_secs, 0).unwrap().with_nanosecond(b_nanos).unwrap();
    (a - b).num_minutes()
}

// ---------------------------------------------------------------------------
// Zones
// ---------------------------------------------------------------------------

/// Offset from UTC, in seconds, of the IANA zone named `zone` at the
/// instant `utc_secs`; `None` when `chrono_tz` knows no zone of that name.
pub uninterp spec fn zone_offset_at(zone: Seq<char>, utc_secs: int) -> Option<i32>;

/// `chrono_tz::Tz::from_str` on the name, then
/// `TimeZone::offset_from_utc_datetime` at the instant. An offset is a
/// `FixedOffset`, less than a day either way.
#[verifier::external_body]
pub(crate) fn named_zone_offset(zone: &str, utc_secs: i64) -> (r: Option<i32>)
    requires
        instant_min() - 60 <= utc_secs <= instant_max() + 60,
    ensures
        r == zone_offset_at(zone@, utc_secs as int),
        r matches Some(o) ==> -86400 < o < 86400,
{
    let tz = zone.parse::<chrono_tz::Tz>().ok()?;
    let utc = chrono::DateTime::from_timestamp(utc_secs, 0).unwrap().naive_utc();
    Some(tz.offset_from_utc_datetime(&utc).fix().local_minus_utc())
}

/// `chrono::Local::now().offset()`: the machine's offset from UTC at the
/// moment of the call, which depends on the clock and the environment. An
/// offset is a `FixedOffset`, less than a day either way.
#[verifier::external_body]
pub(crate) fn local_offset_now() -> (r: i32)
    ensures
        -86400 < r < 86400,
{
    chrono::Local::now().offset().local_minus_utc()
}

// ---------------------------------------------------------------------------
// Date texts
// ---------------------------------------------------------------------------

/// The `strftime` patterns the tools write dates with: the EXIF date and
/// time, and the compact date of file names.
pub open spec fn date_pattern(p: Seq<char>) -> bool {
    p == "%Y:%m:%d %H:%M:%S"@ || p == "%Y%m%d"@
}

/// `%Y:%m:%d %H:%M:%S` of the instant `utc_secs` (plus `nanos`) read at
/// the offset `offset`.
pub open spec fn local_exif_datetime(utc_secs: int, nanos: int, offset: int) -> Seq<char> {
    exif_datetime_text(civil_of(utc_secs + offset), nanos >= 1_000_000_000)
}

/// `%Y%m%d` of the instant `utc_secs` read at the offset `offset`.
pub open spec fn local_compact_date(utc_secs: int, offset: int) -> Seq<char> {
    compact_date_text(civil_of(utc_secs + offset))
}

/// `chrono`'s `DateTime::format` with a `strftime` pattern, for the instant
/// built from its UTC second and nanoseconds and read at a fixed offset:
/// the local date and time is the calendar reading of the UTC second plus
/// the offset. `%Y` writes four digits, with a sign outside 0 to 9999;
/// `%m`, `%d`, `%H`, `%M` two; `%S` two, the second plus one during a leap
/// second (a billion nanoseconds and more).
#[verifier::external_body]
pub(crate) fn format_date(utc_secs: i64, nanos: u32, offset: i32, pattern: &str) -> (r: String)
    requires
        instant_min() - 60 <= utc_secs <= instant_max() + 60,
        nanos < 2_000_000_000,
        -86400 < offset < 86400,
        date_pattern(pattern@),
    ensures
        pattern@ == "%Y:%m:%d %H:%M:%S"@ ==> r@ == local_exif_datetime(
            utc_secs as int,
            nanos as int,
            offset as int,
        ),
        pattern@ == "%Y%m%d"@ ==> r@ == local_compact_date(utc_secs as int, offset as int),
{
    let zone = chrono::FixedOffset::east_opt(offset).unwrap();
    let utc = chrono::DateTime::from_timestamp(utc_secs, 0).unwrap().with_nanosecond(nanos).unwrap();
    format!("{}", utc.with_timezone(&zone).format(pattern))
}

} // verus!
