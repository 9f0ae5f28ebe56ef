//! Julian Date arithmetic on a fixed-point representation.
//!
//! A Julian Date is a (possibly fractional) count of days; the values this
//! library needs are always whole multiples of half a day away from the Unix
//! epoch, so a Julian Date is carried exactly as a signed count of
//! half-seconds.  One day is 172800 half-seconds, and the Unix epoch falls
//! at Julian Date 2440587.5, that is 421733520000 half-seconds.

use vstd::prelude::*;
use vstd::arithmetic::div_mod::lemma_fundamental_div_mod;
use vstd::arithmetic::div_mod::lemma_fundamental_div_mod_converse;

verus! {

/// A Julian Date, held exactly as half-seconds: the Julian Date value is
/// `half_seconds / 172800` days.
#[derive(Debug, Clone, Copy, PartialEq, Eq, Structural)]
pub struct JulianDay {
    pub half_seconds: i64,
}

/// Half-seconds of the Julian Date of the Unix epoch, 2440587.5 days.
pub open spec fn julian_epoch_half_seconds() -> int {
    421733520000
}

/// The Julian Date of a Unix instant, in half-seconds:
/// `unixSeconds / 86400 + 2440587.5` days.
pub open spec fn julian_of_unix(t: int) -> int {
    2 * t + julian_epoch_half_seconds()
}

/// `d / 2` rounded to the nearest integer, halves away from zero.
pub open spec fn half_rounded(d: int) -> int {
    if d % 2 == 0 {
        d / 2
    } else if d >= 0 {
        (d + 1) / 2
    } else {
        (d - 1) / 2
    }
}

/// The Unix instant of a Julian Date in half-seconds:
/// `(julianDay - 2440587.5) * 86400` seconds, rounded to the nearest second.
pub open spec fn unix_of_julian(half_seconds: int) -> int {
    half_rounded(half_seconds - julian_epoch_half_seconds())
}

/// Converts a Unix instant to its Julian Date.
pub fn unix_to_julian(timestamp: i64) -> (r: JulianDay)
    requires
        -1000000000000000 <= timestamp <= 1000000000000000,
    ensures
        r.half_seconds == julian_of_unix(timestamp as int),
{
    JulianDay { half_seconds: 2 * timestamp + 421733520000 }
}

/// Converts a Julian Date back to the nearest whole Unix second.
pub fn julian_to_unix(jd: JulianDay) -> (r: i64)
    requires
        -4000000000000000 <= jd.half_seconds <= 4000000000000000,
    ensures
        r as int == unix_of_julian(jd.half_seconds as int),
{
    let d: i64 = jd.half_seconds - 421733520000;
    if d >= 0 {
        let u: u64 = d as u64;
        if u % 2 == 0 {
            (u / 2) as i64
        } else {
            ((u + 1) / 2) as i64
        }
    } else {
        let m: u64 = (-d) as u64;
        proof {
            lemma_fundamental_div_mod(d as int, 2);
            if d as int % 2 == 0 {
                lemma_fundamental_div_mod_converse(
                    -(d as int),
                    2,
                    -(d as int / 2),
                    0,
                );
            } else {
                lemma_fundamental_div_mod_converse(
                    -(d as int),
                    2,
                    -(d as int / 2) - 1,
                    1,
                );
                lemma_fundamental_div_mod_converse(
                    d as int - 1,
                    2,
                    d as int / 2,
                    0,
                );
            }
        }
        if m % 2 == 0 {
            -((m / 2) as i64)
        } else {
            -(((m + 1) / 2) as i64)
        }
    }
}

/// Converting a Unix instant to a Julian Date and back returns the same
/// instant exactly: the representation is exact and the rounding never has
/// to act.
pub proof fn lemma_julian_round_trip(t: int)
    ensures
        unix_of_julian(julian_of_unix(t)) == t,
{
    lemma_fundamental_div_mod_converse(2 * t, 2, t, 0);
}

/// The index of the solar day containing the Unix instant `t` at a
/// longitude given in micro-degrees: `floor(t / 86400 + lon / 360)` with
/// the longitude as fractional degrees.  Written over a common denominator
/// of `86400 * 360000000` so that it stays in the integers.
pub open spec fn solar_day_index(t: int, lon_udeg: int) -> int {
    (t * 360000000 + lon_udeg * 86400) / 31104000000000
}

/// The Unix instant at which that solar day begins.  This equals the
/// instant of the Julian Date `floor(julian(t) + lon/360 + 0.5) - 0.5`:
/// subtracting the epoch's 2440587.5 days cancels both halves, leaving a
/// whole number of days.
pub open spec fn solar_day_start_of(t: int, lon_udeg: int) -> int {
    86400 * solar_day_index(t, lon_udeg)
}

/// Computes the start of the longitude-adjusted solar day containing `t`.
pub fn solar_day_start(t: i64, lon_udeg: i64) -> (r: i64)
    requires
        0 <= t <= 5000000000000,
        -180000000 <= lon_udeg <= 180000000,
    ensures
        r as int == solar_day_start_of(t as int, lon_udeg as int),
        t - 2 * 86400 < r <= t + 86400,
{
    let tu: u64 = t as u64;
    let q: i64 = (tu / 86400) as i64;
    let rem: i64 = (tu % 86400) as i64;
    let num: i64 = rem * 360000000 + lon_udeg * 86400;
    let frac: i64 = if num >= 0 {
        ((num as u64) / 31104000000000) as i64
    } else {
        -1
    };
    proof {
        let ti = t as int;
        let ni = num as int;
        assert(ti == 86400 * (q as int) + rem as int);
        assert((86400 * (q as int) + rem as int) * 360000000 == 31104000000000 * (q as int)
            + (rem as int) * 360000000) by (nonlinear_arith);
        if ni >= 0 {
            lemma_fundamental_div_mod(ni, 31104000000000);
            lemma_fundamental_div_mod_converse(
                ti * 360000000 + (lon_udeg as int) * 86400,
                31104000000000,
                q as int + ni / 31104000000000,
                ni % 31104000000000,
            );
        } else {
            lemma_fundamental_div_mod_converse(
                ti * 360000000 + (lon_udeg as int) * 86400,
                31104000000000,
                q as int - 1,
                ni + 31104000000000,
            );
        }
        assert(solar_day_index(ti, lon_udeg as int) == q as int + frac as int);
    }
    (q + frac) * 86400
}

/// The solar day start is the Julian Date arithmetic written out: the
/// Julian Date `floor(julian(t) + lon/360 + 0.5) - 0.5`, whose floor is
/// `2440588 + solar_day_index(t, lon)` whole days, converted back to Unix
/// seconds, is exactly the solar day start.
pub proof fn lemma_solar_day_start_from_julian(t: int, lon_udeg: int)
    ensures
        solar_day_start_of(t, lon_udeg) == unix_of_julian(
            (2440588 + solar_day_index(t, lon_udeg)) * 172800 - 86400,
        ),
{
    let k = solar_day_index(t, lon_udeg);
    assert((2440588 + k) * 172800 - 86400 - julian_epoch_half_seconds() == 172800 * k);
    lemma_fundamental_div_mod_converse(172800 * k, 2, 86400 * k, 0);
}

/// The start of the solar day containing `t` lies at most two days before
/// and at most one day after `t`.
pub proof fn lemma_solar_day_bounds(t: int, lon_udeg: int)
    requires
        -180000000 <= lon_udeg <= 180000000,
    ensures
        t - 2 * 86400 < solar_day_start_of(t, lon_udeg) <= t + 86400,
{
    let n = t * 360000000 + lon_udeg * 86400;
    let q = n / 31104000000000;
    let rr = n % 31104000000000;
    lemma_fundamental_div_mod(n, 31104000000000);
    assert(0 <= rr < 31104000000000);
    assert(86400 * q <= t + 86400) by (nonlinear_arith)
        requires
            31104000000000 * q + rr == n,
            0 <= rr,
            n <= t * 360000000 + 15552000000000,
    ;
    assert(t - 2 * 86400 < 86400 * q) by (nonlinear_arith)
        requires
            31104000000000 * q + rr == n,
            rr < 31104000000000,
            n >= t * 360000000 - 15552000000000,
    ;
}

/// Moving the probed instant one day forward moves the solar day start one
/// day forward, whatever the longitude.
pub proof fn lemma_solar_day_step(t: int, lon_udeg: int)
    ensures
        solar_day_index(t + 86400, lon_udeg) == solar_day_index(t, lon_udeg) + 1,
        solar_day_start_of(t + 86400, lon_udeg) == solar_day_start_of(t, lon_udeg) + 86400,
{
    let n = t * 360000000 + lon_udeg * 86400;
    lemma_fundamental_div_mod(n, 31104000000000);
    lemma_fundamental_div_mod_converse(
        (t + 86400) * 360000000 + lon_udeg * 86400,
        31104000000000,
        n / 31104000000000 + 1,
        n % 31104000000000,
    );
}

} // verus!
