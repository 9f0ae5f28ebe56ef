//! Civil (proleptic Gregorian) dates from Unix instants, and the two text
//! renderings the calendar needs: the compact `YYYYMMDDTHHMMSSZ` form of an
//! iCalendar date-time, and a readable `YYYY-MM-DD HH:MM:SS UTC` form.
//!
//! The supported instants run from the Unix epoch into the year 9994
//! (`86400 * 8030 * 365` seconds), a simple bound that keeps the year four
//! digits wide.

use vstd::prelude::*;
use vstd::string::StringExecFns;

verus! {

broadcast use vstd::seq::group_seq_axioms;

/// A year divisible by four is a leap year, except that a new century is
/// not, except that every fourth century is again.
pub open spec fn is_leap_year(y: int) -> bool {
    (y % 4 == 0 && y % 100 != 0) || y % 400 == 0
}

pub open spec fn days_in_year(y: int) -> int {
    if is_leap_year(y) {
        366
    } else {
        365
    }
}

pub open spec fn days_in_month(y: int, m: int) -> int {
    if m == 2 {
        if is_leap_year(y) {
            29
        } else {
            28
        }
    } else if m == 4 || m == 6 || m == 9 || m == 11 {
        30
    } else {
        31
    }
}

/// The year containing the day `days` counted from the start of year `y`,
/// together with the remaining day-of-year offset.
pub open spec fn year_rec(days: int, y: int) -> (int, int)
    decreases days when 0 <= days
{
    if days < days_in_year(y) {
        (y, days)
    } else {
        year_rec(days - days_in_year(y), y + 1)
    }
}

/// The month containing the day `doy` counted from the start of month `m`
/// of year `y`, together with the remaining day-of-month offset.
pub open spec fn month_rec(y: int, doy: int, m: int) -> (int, int)
    decreases 12 - m when m <= 12
{
    if m >= 12 || doy < days_in_month(y, m) {
        (m, doy)
    } else {
        month_rec(y, doy - days_in_month(y, m), m + 1)
    }
}

/// The civil date (year, month, day) of a day count from 1970-01-01.
pub open spec fn civil_of_days(days: int) -> (int, int, int) {
    let yd = year_rec(days, 1970);
    let md = month_rec(yd.0, yd.1, 1);
    (yd.0, md.0, md.1 + 1)
}

/// Days from the start of year `y` to the start of its month `m`.
pub open spec fn days_before_month(y: int, m: int) -> int
    decreases m when 1 <= m
{
    if m <= 1 {
        0
    } else {
        days_before_month(y, m - 1) + days_in_month(y, m - 1)
    }
}

/// The twelve months of a year hold exactly its number of days.
proof fn lemma_months_cover_year(y: int)
    ensures
        days_before_month(y, 12) + days_in_month(y, 12) == days_in_year(y),
{
    assert(days_before_month(y, 1) == 0);
    assert(days_before_month(y, 2) == 31);
    assert(days_before_month(y, 3) == 31 + days_in_month(y, 2));
    assert(days_before_month(y, 4) == days_before_month(y, 3) + 31);
    assert(days_before_month(y, 5) == days_before_month(y, 4) + 30);
    assert(days_before_month(y, 6) == days_before_month(y, 5) + 31);
    assert(days_before_month(y, 7) == days_before_month(y, 6) + 30);
    assert(days_before_month(y, 8) == days_before_month(y, 7) + 31);
    assert(days_before_month(y, 9) == days_before_month(y, 8) + 31);
    assert(days_before_month(y, 10) == days_before_month(y, 9) + 30);
    assert(days_before_month(y, 11) == days_before_month(y, 10) + 31);
    assert(days_before_month(y, 12) == days_before_month(y, 11) + 30);
}

pub fn leap_year_check(y: u64) -> (r: bool)
    ensures
        r == is_leap_year(y as int),
{
    (y % 4 == 0 && y % 100 != 0) || y % 400 == 0
}

pub fn days_in_year_count(y: u64) -> (r: u64)
    ensures
        r as int == days_in_year(y as int),
        365 <= r <= 366,
{
    if leap_year_check(y) {
        366
    } else {
        365
    }
}

pub fn days_in_month_count(y: u64, m: u64) -> (r: u64)
    requires
        1 <= m <= 12,
    ensures
        r as int == days_in_month(y as int, m as int),
        28 <= r <= 31,
{
    if m == 2 {
        if leap_year_check(y) {
            29
        } else {
            28
        }
    } else if m == 4 || m == 6 || m == 9 || m == 11 {
        30
    } else {
        31
    }
}

/// A Unix instant broken into its civil date and time of day, all in UTC.
#[derive(Debug, Clone, Copy, PartialEq, Eq, Structural)]
pub struct CivilDateTime {
    pub year: u64,
    pub month: u64,
    pub day: u64,
    pub hour: u64,
    pub minute: u64,
    pub second: u64,
}

/// Breaks a Unix instant into civil date and time of day.
pub fn civil_from_unix(t: i64) -> (c: CivilDateTime)
    requires
        0 <= t < 253234080000,
    ensures
        (c.year as int, c.month as int, c.day as int) == civil_of_days(t as int / 86400),
        c.hour as int == (t as int % 86400) / 3600,
        c.minute as int == ((t as int % 86400) % 3600) / 60,
        c.second as int == (t as int % 86400) % 60,
        1970 <= c.year <= 9999,
        1 <= c.month <= 12,
        1 <= c.day <= 31,
        c.hour < 24,
        c.minute < 60,
        c.second < 60,
{
    let total: u64 = t as u64;
    let days: u64 = total / 86400;
    let sod: u64 = total % 86400;
    let mut y: u64 = 1970;
    let mut rem: u64 = days;
    while rem >= days_in_year_count(y)
        invariant
            days < 2930950,
            1970 <= y <= 9999,
            rem <= days,
            year_rec(days as int, 1970) == year_rec(rem as int, y as int),
            rem as int <= days as int - (y as int - 1970) * 365,
        decreases rem,
    {
        let n = days_in_year_count(y);
        rem = rem - n;
        y = y + 1;
        proof {
            assert(y as int - 1 < 9999 || rem as int <= days as int - (y as int - 1970) * 365);
            assert((y as int - 1970) * 365 <= days as int - rem as int);
            assert(y <= 9999) by {
                if y as int - 1970 >= 8030 {
                    assert((y as int - 1970) * 365 >= 8030 * 365) by (nonlinear_arith)
                        requires y as int - 1970 >= 8030;
                }
            }
        }
    }
    let doy: u64 = rem;
    let mut m: u64 = 1;
    let mut drem: u64 = doy;
    while m < 12 && drem >= days_in_month_count(y, m)
        invariant
            1 <= m <= 12,
            drem <= doy,
            (doy as int) < days_in_year(y as int),
            month_rec(y as int, doy as int, 1) == month_rec(y as int, drem as int, m as int),
            days_before_month(y as int, m as int) + drem as int == doy as int,
        decreases 12 - m,
    {
        let n = days_in_month_count(y, m);
        drem = drem - n;
        m = m + 1;
    }
    proof {
        if m == 12 {
            lemma_months_cover_year(y as int);
        }
        assert(month_rec(y as int, doy as int, 1) == (m as int, drem as int));
    }
    CivilDateTime {
        year: y,
        month: m,
        day: drem + 1,
        hour: sod / 3600,
        minute: (sod % 3600) / 60,
        second: sod % 60,
    }
}

/// The one-character text of a decimal digit.
pub open spec fn digit_view(d: int) -> Seq<char> {
    if d == 0 {
        "0"@
    } else if d == 1 {
        "1"@
    } else if d == 2 {
        "2"@
    } else if d == 3 {
        "3"@
    } else if d == 4 {
        "4"@
    } else if d == 5 {
        "5"@
    } else if d == 6 {
        "6"@
    } else if d == 7 {
        "7"@
    } else if d == 8 {
        "8"@
    } else {
        "9"@
    }
}

/// A number below 100 as exactly two digits.
pub open spec fn pad2_view(n: int) -> Seq<char> {
    digit_view(n / 10) + digit_view(n % 10)
}

/// A number below 10000 as exactly four digits.
pub open spec fn pad4_view(n: int) -> Seq<char> {
    digit_view(n / 1000) + digit_view((n / 100) % 10) + digit_view((n / 10) % 10) + digit_view(
        n % 10,
    )
}

fn push_digit(out: &mut String, d: u64)
    requires
        d < 10,
    ensures
        final(out)@ == old(out)@ + digit_view(d as int),
{
    if d == 0 {
        out.append("0")
    } else if d == 1 {
        out.append("1")
    } else if d == 2 {
        out.append("2")
    } else if d == 3 {
        out.append("3")
    } else if d == 4 {
        out.append("4")
    } else if d == 5 {
        out.append("5")
    } else if d == 6 {
        out.append("6")
    } else if d == 7 {
        out.append("7")
    } else if d == 8 {
        out.append("8")
    } else {
        out.append("9")
    }
}

fn push_pad2(out: &mut String, n: u64)
    requires
        n < 100,
    ensures
        final(out)@ == old(out)@ + pad2_view(n as int),
{
    push_digit(out, n / 10);
    push_digit(out, n % 10);
    proof {
        assert(out@ =~= old(out)@ + pad2_view(n as int));
    }
}

fn push_pad4(out: &mut String, n: u64)
    requires
        n < 10000,
    ensures
        final(out)@ == old(out)@ + pad4_view(n as int),
{
    push_digit(out, n / 1000);
    push_digit(out, (n / 100) % 10);
    push_digit(out, (n / 10) % 10);
    push_digit(out, n % 10);
    proof {
        assert(out@ =~= old(out)@ + pad4_view(n as int));
    }
}

/// The compact iCalendar rendering of an instant: `YYYYMMDDTHHMMSSZ`.
pub open spec fn dtstamp_view(t: int) -> Seq<char> {
    let c = civil_of_days(t / 86400);
    let sod = t % 86400;
    pad4_view(c.0) + pad2_view(c.1) + pad2_view(c.2) + "T"@ + pad2_view(sod / 3600) + pad2_view(
        (sod % 3600) / 60,
    ) + pad2_view(sod % 60) + "Z"@
}

/// Renders an instant in the compact iCalendar date-time form.
pub fn format_dtstamp(t: i64) -> (r: String)
    requires
        0 <= t < 253234080000,
    ensures
        r@ == dtstamp_view(t as int),
{
    let c = civil_from_unix(t);
    let mut out = String::new();
    push_pad4(&mut out, c.year);
    push_pad2(&mut out, c.month);
    push_pad2(&mut out, c.day);
    out.append("T");
    push_pad2(&mut out, c.hour);
    push_pad2(&mut out, c.minute);
    push_pad2(&mut out, c.second);
    out.append("Z");
    proof {
        assert(out@ =~= dtstamp_view(t as int));
    }
    out
}

/// The readable rendering of an instant: `YYYY-MM-DD HH:MM:SS UTC`.
pub open spec fn readable_utc_view(t: int) -> Seq<char> {
    let c = civil_of_days(t / 86400);
    let sod = t % 86400;
    pad4_view(c.0) + "-"@ + pad2_view(c.1) + "-"@ + pad2_view(c.2) + " "@ + pad2_view(sod / 3600)
        + ":"@ + pad2_view((sod % 3600) / 60) + ":"@ + pad2_view(sod % 60) + " UTC"@
}

/// Renders an instant readably in UTC.
pub fn format_readable_utc(t: i64) -> (r: String)
    requires
        0 <= t < 253234080000,
    ensures
        r@ == readable_utc_view(t as int),
{
    let c = civil_from_unix(t);
    let mut out = String::new();
    push_pad4(&mut out, c.year);
    out.append("-");
    push_pad2(&mut out, c.month);
    out.append("-");
    push_pad2(&mut out, c.day);
    out.append(" ");
    push_pad2(&mut out, c.hour);
    out.append(":");
    push_pad2(&mut out, c.minute);
    out.append(":");
    push_pad2(&mut out, c.second);
    out.append(" UTC");
    proof {
        assert(out@ =~= readable_utc_view(t as int));
    }
    out
}

} // verus!
