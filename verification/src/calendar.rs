//! The proleptic Gregorian calendar: the date and time of day of a count of
//! seconds since 1970-01-01T00:00:00, and the date texts written from it.

use vstd::prelude::*;

use crate::text::decimal_text;

verus! {

pub open spec fn is_leap_year(y: int) -> bool {
    (y % 4 == 0 && y % 100 != 0) || y % 400 == 0
}

pub open spec fn days_in_year(y: int) -> int {
    if is_leap_year(y) {
        366
    } else {
        365
    }
}

pub open spec fn days_in_month(y: int, m: int) -> int {
    if m == 2 {
        if is_leap_year(y) {
            29
        } else {
            28
        }
    } else if m == 4 || m == 6 || m == 9 || m == 11 {
        30
    } else {
        31
    }
}

/// Days from 0000-01-01 to the first day of year `y`.
pub open spec fn days_before_year(y: int) -> int {
    365 * y + (y + 3) / 4 - (y + 99) / 100 + (y + 399) / 400
}

/// Days from the first of January to the first day of month `m` of year `y`.
pub open spec fn days_before_month(y: int, m: int) -> int {
    let base: int = if m <= 1 {
        0
    } else if m == 2 {
        31
    } else if m == 3 {
        59
    } else if m == 4 {
        90
    } else if m == 5 {
        120
    } else if m == 6 {
        151
    } else if m == 7 {
        181
    } else if m == 8 {
        212
    } else if m == 9 {
        243
    } else if m == 10 {
        273
    } else if m == 11 {
        304
    } else {
        334
    };
    if m > 2 && is_leap_year(y) {
        base + 1
    } else {
        base
    }
}

/// Days from 0000-01-01 to 1970-01-01.
pub open spec fn epoch_offset_days() -> int {
    719528
}

/// Days from 1970-01-01 to the date `y-m-d`.
pub open spec fn epoch_day(y: int, m: int, d: int) -> int {
    days_before_year(y) + days_before_month(y, m) + d - 1 - epoch_offset_days()
}

/// A date and time of day on the calendar.
pub struct Civil {
    pub year: int,
    pub month: int,
    pub day: int,
    pub hour: int,
    pub minute: int,
    pub second: int,
}

/// `c` is the calendar date and time of the second `t` (seconds since
/// 1970-01-01T00:00:00, without leap seconds).
pub open spec fn is_civil_of(c: Civil, t: int) -> bool {
    &&& 1 <= c.month <= 12
    &&& 1 <= c.day <= days_in_month(c.year, c.month)
    &&& 0 <= c.hour < 24
    &&& 0 <= c.minute < 60
    &&& 0 <= c.second < 60
    &&& epoch_day(c.year, c.month, c.day) * 86400 + c.hour * 3600 + c.minute * 60 + c.second == t
}

/// The calendar date and time of the second `t`: every second has one
/// (`lemma_civil_exists`), and only one (`lemma_civil_unique`).
pub open spec fn civil_of(t: int) -> Civil {
    choose|c: Civil| is_civil_of(c, t)
}

#[verifier::spinoff_prover]
proof fn lemma_year_step(y: int)
    ensures
        days_before_year(y + 1) == days_before_year(y) + days_in_year(y),
{
    assert((y + 4) / 4 == (y + 3) / 4 + if y % 4 == 0 { 1int } else { 0int });
    assert((y + 100) / 100 == (y + 99) / 100 + if y % 100 == 0 { 1int } else { 0int });
    assert((y + 400) / 400 == (y + 399) / 400 + if y % 400 == 0 { 1int } else { 0int });
}

proof fn lemma_years_increase(a: int, b: int)
    requires
        a < b,
    ensures
        days_before_year(a + 1) <= days_before_year(b),
    decreases b - a,
{
    lemma_year_step(b - 1);
    if a + 1 < b {
        lemma_years_increase(a, b - 1);
    }
}

proof fn lemma_month_step(y: int, m: int)
    requires
        1 <= m <= 12,
    ensures
        m < 12 ==> days_before_month(y, m + 1) == days_before_month(y, m) + days_in_month(y, m),
        m == 12 ==> days_before_month(y, m) + days_in_month(y, m) == days_in_year(y),
{
}

proof fn lemma_months_increase(y: int, a: int, b: int)
    requires
        1 <= a < b <= 12,
    ensures
        days_before_month(y, a) + days_in_month(y, a) <= days_before_month(y, b),
    decreases b - a,
{
    lemma_month_step(y, b - 1);
    lemma_month_step(y, a);
    if a + 1 < b {
        lemma_months_increase(y, a, b - 1);
    }
}

/// The date of a valid calendar day lies within its year.
proof fn lemma_date_in_year(y: int, m: int, d: int)
    requires
        1 <= m <= 12,
        1 <= d <= days_in_month(y, m),
    ensures
        days_before_year(y) <= days_before_year(y) + days_before_month(y, m) + d - 1
            < days_before_year(y + 1),
{
    lemma_year_step(y);
    lemma_month_step(y, m);
    if m < 12 {
        lemma_months_increase(y, m, 12);
        lemma_month_step(y, 12);
    }
}

/// Two calendar readings of the same second are the same.
pub proof fn lemma_civil_unique(c1: Civil, c2: Civil, t: int)
    requires
        is_civil_of(c1, t),
        is_civil_of(c2, t),
    ensures
        c1 == c2,
{
    let e1 = epoch_day(c1.year, c1.month, c1.day);
    let e2 = epoch_day(c2.year, c2.month, c2.day);
    let r1 = c1.hour * 3600 + c1.minute * 60 + c1.second;
    let r2 = c2.hour * 3600 + c2.minute * 60 + c2.second;
    assert(e1 == e2 && r1 == r2) by (nonlinear_arith)
        requires
            e1 * 86400 + r1 == t,
            e2 * 86400 + r2 == t,
            0 <= r1 < 86400,
            0 <= r2 < 86400,
    ;
    assert(c1.hour == c2.hour && c1.minute == c2.minute && c1.second == c2.second) by (
    nonlinear_arith)
        requires
            c1.hour * 3600 + c1.minute * 60 + c1.second == c2.hour * 3600 + c2.minute * 60
                + c2.second,
            0 <= c1.minute < 60,
            0 <= c1.second < 60,
            0 <= c2.minute < 60,
            0 <= c2.second < 60,
    ;
    lemma_date_in_year(c1.year, c1.month, c1.day);
    lemma_date_in_year(c2.year, c2.month, c2.day);
    if c1.year < c2.year {
        lemma_years_increase(c1.year, c2.year);
    } else if c2.year < c1.year {
        lemma_years_increase(c2.year, c1.year);
    }
    assert(c1.year == c2.year);
    if c1.month < c2.month {
        lemma_months_increase(c1.year, c1.month, c2.month);
    } else if c2.month < c1.month {
        lemma_months_increase(c1.year, c2.month, c1.month);
    }
}

/// Some year `y` at or below `y0` starts on day `d` (counted from
/// 0000-01-01) or before it.
proof fn lemma_year_at_or_below(d: int, y0: int)
    ensures
        exists|y: int| y <= y0 && #[trigger] days_before_year(y) <= d,
    decreases (if days_before_year(y0) > d { days_before_year(y0) - d } else { 0 }),
{
    if days_before_year(y0) > d {
        lemma_year_step(y0 - 1);
        lemma_year_at_or_below(d, y0 - 1);
    } else {
        assert(days_before_year(y0) <= d);
    }
}

/// Day `d` (counted from 0000-01-01) lies in some year at or after `y0`,
/// when year `y0` does not start after it.
proof fn lemma_year_containing(d: int, y0: int)
    requires
        days_before_year(y0) <= d,
    ensures
        exists|y: int| #[trigger] days_before_year(y) <= d < days_before_year(y + 1),
    decreases d - days_before_year(y0),
{
    lemma_year_step(y0);
    if days_before_year(y0 + 1) <= d {
        lemma_year_containing(d, y0 + 1);
    } else {
        assert(days_before_year(y0) <= d < days_before_year(y0 + 1));
    }
}

/// Day `k` of year `y` (counted from the first of January) lies in some
/// month at or after `m0`, when month `m0` does not start after it.
proof fn lemma_month_containing(y: int, k: int, m0: int)
    requires
        1 <= m0 <= 12,
        days_before_month(y, m0) <= k < days_in_year(y),
    ensures
        exists|m: int|
            1 <= m <= 12 && #[trigger] days_before_month(y, m) <= k < days_before_month(y, m)
                + days_in_month(y, m),
    decreases 12 - m0,
{
    lemma_month_step(y, m0);
    if m0 < 12 && days_before_month(y, m0 + 1) <= k {
        lemma_month_containing(y, k, m0 + 1);
    } else {
        assert(days_before_month(y, m0) <= k < days_before_month(y, m0) + days_in_month(y, m0));
    }
}

/// Every second has a calendar reading, so `civil_of` is one.
pub proof fn lemma_civil_exists(t: int)
    ensures
        exists|c: Civil| is_civil_of(c, t),
        is_civil_of(civil_of(t), t),
{
    let day = t / 86400;
    let tod = t % 86400;
    assert(day * 86400 + tod == t && 0 <= tod < 86400) by (nonlinear_arith)
        requires
            day == t / 86400,
            tod == t % 86400,
    ;
    let dd = day + epoch_offset_days();
    lemma_year_at_or_below(dd, 0);
    let y0 = choose|y: int| y <= 0 && #[trigger] days_before_year(y) <= dd;
    lemma_year_containing(dd, y0);
    let y = choose|y: int| #[trigger] days_before_year(y) <= dd < days_before_year(y + 1);
    lemma_year_step(y);
    let k = dd - days_before_year(y);
    assert(days_before_month(y, 1) == 0);
    lemma_month_containing(y, k, 1);
    let m = choose|m: int|
        1 <= m <= 12 && #[trigger] days_before_month(y, m) <= k < days_before_month(y, m)
            + days_in_month(y, m);
    let d = k - days_before_month(y, m) + 1;
    let hh = tod / 3600;
    let mi = (tod % 3600) / 60;
    let ss = tod % 60;
    assert(hh * 3600 + mi * 60 + ss == tod && 0 <= hh < 24 && 0 <= mi < 60 && 0 <= ss < 60) by (
    nonlinear_arith)
        requires
            0 <= tod < 86400,
            hh == tod / 3600,
            mi == (tod % 3600) / 60,
            ss == tod % 60,
    ;
    let c = Civil { year: y, month: m, day: d, hour: hh, minute: mi, second: ss };
    assert(epoch_day(y, m, d) == day);
    assert(is_civil_of(c, t));
}

// ---------------------------------------------------------------------------
// Date texts
// ---------------------------------------------------------------------------

/// `n` in decimal, zero-padded on the left to `width` digits.
pub open spec fn padded_text(n: nat, width: nat) -> Seq<char> {
    let digits = decimal_text(n);
    if digits.len() < width {
        Seq::new((width - digits.len()) as nat, |_i: int| '0') + digits
    } else {
        digits
    }
}

/// `%Y`: four digits, zero-padded; a sign in front outside 0..=9999.
pub open spec fn year_text(y: int) -> Seq<char> {
    if 0 <= y <= 9999 {
        padded_text(y as nat, 4)
    } else if y < 0 {
        seq!['-'] + padded_text((-y) as nat, 4)
    } else {
        seq!['+'] + padded_text(y as nat, 4)
    }
}

pub open spec fn two_digits(n: int) -> Seq<char> {
    padded_text(n as nat, 2)
}

/// `%Y:%m:%d %H:%M:%S`; during a leap second the seconds read 60.
pub open spec fn exif_datetime_text(c: Civil, leap: bool) -> Seq<char> {
    year_text(c.year) + seq![':'] + two_digits(c.month) + seq![':'] + two_digits(c.day) + seq![' ']
        + two_digits(c.hour) + seq![':'] + two_digits(c.minute) + seq![':'] + two_digits(
        c.second + if leap {
            1int
        } else {
            0int
        },
    )
}

/// `%Y%m%d`.
pub open spec fn compact_date_text(c: Civil) -> Seq<char> {
    year_text(c.year) + two_digits(c.month) + two_digits(c.day)
}

} // verus!
