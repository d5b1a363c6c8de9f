//! Civil calendar dates and their conversion to and from Julian day numbers.
//!
//! Instants are carried as Julian day numbers in micro-days (`i64`), so a
//! whole day is `1_000_000` units and the supported calendar range (years
//! 1583 through 9999, safely past the Gregorian reform) stays far inside the
//! machine range. The conversion back to a civil date follows the classical
//! Gregorian algorithm, with the half-day shift applied so that converting a
//! date to its Julian number and back returns the same date.

use vstd::prelude::*;

verus! {

use crate::strutil::{spec_dec_pad, fmt_u64_pad2, fmt_u64_pad4};

/// Smallest Julian micro-day instant the solar logic accepts
/// (a little before the start of 1583).
pub const JD_MICRO_MIN: i64 = 2_299_236_000_000;

/// Largest Julian micro-day instant the solar logic accepts
/// (a little after the end of 9999).
pub const JD_MICRO_MAX: i64 = 5_373_490_000_000;

/// A calendar date in the Gregorian calendar.
#[derive(Clone, Copy, PartialEq, Eq, Structural, Debug)]
pub struct CivilDate {
    pub year: i64,
    pub month: i64,
    pub day: i64,
}

/// A calendar date with a time of day.
#[derive(Clone, Copy, PartialEq, Eq, Structural, Debug)]
pub struct CivilDateTime {
    pub year: i64,
    pub month: i64,
    pub day: i64,
    pub hour: i64,
    pub minute: i64,
    pub second: i64,
}

impl CivilDate {
    /// The dates the calendar arithmetic accepts: years 1583 through 9999
    /// and plausible month and day fields.
    pub open spec fn wf(self) -> bool {
        &&& 1583 <= self.year <= 9999
        &&& 1 <= self.month <= 12
        &&& 1 <= self.day <= 31
    }
}

/// Julian day number of the midnight that starts the given date,
/// in micro-days.
pub open spec fn spec_julian_micro(y: int, m: int, d: int) -> int {
    let yy = if m <= 2 {
        y - 1
    } else {
        y
    };
    let mm = if m <= 2 {
        m + 12
    } else {
        m
    };
    let a = yy / 100;
    let b = 2 - a + a / 4;
    let f1 = 36525 * (yy + 4716) / 100;
    let f2 = 306001 * (mm + 1) / 10000;
    (f1 + f2 + d + b) * 1_000_000 - 1_524_500_000
}

/// Convert a civil date to its Julian day number in micro-days.
pub fn to_julian_micro(date: &CivilDate) -> (r: i64)
    requires
        date.wf(),
    ensures
        r == spec_julian_micro(date.year as int, date.month as int, date.day as int),
        JD_MICRO_MIN + 2_000_000 <= r <= JD_MICRO_MAX - 6_000_000,
        r % 1_000_000 == 500_000,
{
    let (yy, mm): (i64, i64) = if date.month <= 2 {
        (date.year - 1, date.month + 12)
    } else {
        (date.year, date.month)
    };
    let a: i64 = yy / 100;
    let b: i64 = 2 - a + a / 4;
    let f1: i64 = 36525 * (yy + 4716) / 100;
    let f2: i64 = 306001 * (mm + 1) / 10000;
    proof {
        assert(15 <= a <= 99);
        assert(36525 * (yy as int + 4716) / 100 >= 36525 * 6298 / 100) by {
            vstd::arithmetic::div_mod::lemma_div_is_ordered(
                36525int * 6298,
                36525 * (yy as int + 4716),
                100,
            );
        }
        assert(36525 * (yy as int + 4716) / 100 <= 36525 * 14715 / 100) by {
            vstd::arithmetic::div_mod::lemma_div_is_ordered(
                36525 * (yy as int + 4716),
                36525int * 14715,
                100,
            );
        }
        assert(306001 * (mm as int + 1) / 10000 >= 306001 * 4 / 10000) by {
            vstd::arithmetic::div_mod::lemma_div_is_ordered(
                306001int * 4,
                306001 * (mm as int + 1),
                10000,
            );
        }
        assert(306001 * (mm as int + 1) / 10000 <= 306001 * 15 / 10000) by {
            vstd::arithmetic::div_mod::lemma_div_is_ordered(
                306001 * (mm as int + 1),
                306001int * 15,
                10000,
            );
        }
    }
    let total: i64 = f1 + f2 + date.day + b;
    let r: i64 = total * 1_000_000 - 1_524_500_000;
    proof {
        assert(r % 1_000_000 == 500_000) by {
            vstd::arithmetic::div_mod::lemma_mod_multiples_vanish(
                total as int - 1525,
                500_000,
                1_000_000,
            );
            assert(r == 1_000_000 * (total as int - 1525) + 500_000);
        }
    }
    r
}

/// The civil date and time a Julian micro-day instant falls on,
/// as a six-tuple of year, month, day, hour, minute, second.
pub open spec fn spec_jd_to_civil(jd: int) -> (int, int, int, int, int, int) {
    let zf = jd + 500_000;
    let z = zf / 1_000_000;
    let f = zf % 1_000_000;
    let a = if z < 2_299_161 {
        z
    } else {
        let alpha = (z * 100 - 186_721_625) / 3_652_425;
        z + 1 + alpha - alpha / 4
    };
    let b = a + 1524;
    let c = (b * 100 - 12210) / 36525;
    let d0 = 36525 * c / 100;
    let e = (b - d0) * 10000 / 306001;
    let day = b - d0 - 306001 * e / 10000;
    let month = if e < 14 {
        e - 1
    } else {
        e - 13
    };
    let year = if month > 2 {
        c - 4716
    } else {
        c - 4715
    };
    let sec_of_day = f * 86400 / 1_000_000;
    (year, month, day, sec_of_day / 3600, sec_of_day % 3600 / 60, sec_of_day % 60)
}

/// Convert a Julian micro-day instant back to a civil date and time.
pub fn julian_micro_to_civil(jd: i64) -> (r: CivilDateTime)
    requires
        JD_MICRO_MIN - 4_000_000 <= jd <= JD_MICRO_MAX,
    ensures
        (r.year as int, r.month as int, r.day as int, r.hour as int, r.minute as int,
        r.second as int) == spec_jd_to_civil(jd as int),
        0 <= r.year <= 12000,
        1 <= r.month <= 12,
        0 <= r.day <= 600,
        0 <= r.hour < 24,
        0 <= r.minute < 60,
        0 <= r.second < 60,
{
    let zf: i64 = jd + 500_000;
    let z: i64 = zf / 1_000_000;
    let f: i64 = zf % 1_000_000;
    proof {
        vstd::arithmetic::div_mod::lemma_div_is_ordered(2_299_232_000_000, zf as int, 1_000_000);
        vstd::arithmetic::div_mod::lemma_div_is_ordered(zf as int, 5_373_491_000_000, 1_000_000);
        vstd::arithmetic::div_mod::lemma_mod_division_less_than_divisor(zf as int, 1_000_000);
        vstd::arithmetic::div_mod::lemma_mod_bound(zf as int, 1_000_000);
    }
    let a: i64 = if z < 2_299_161 {
        z
    } else {
        let alpha: i64 = (z * 100 - 186_721_625) / 3_652_425;
        proof {
            vstd::arithmetic::div_mod::lemma_div_pos_is_pos(z as int * 100 - 186_721_625, 3_652_425);
            vstd::arithmetic::div_mod::lemma_div_is_ordered(
                z as int * 100 - 186_721_625,
                537_360_900 - 186_721_625,
                3_652_425,
            );
            vstd::arithmetic::div_mod::lemma_div_pos_is_pos(alpha as int, 4);
            vstd::arithmetic::div_mod::lemma_div_is_ordered(alpha as int, 96, 4);
        }
        z + 1 + alpha - alpha / 4
    };
    let b: i64 = a + 1524;
    let c: i64 = (b * 100 - 12210) / 36525;
    let d0: i64 = 36525 * c / 100;
    proof {
        let bi = b as int * 100 - 12210;
        vstd::arithmetic::div_mod::lemma_fundamental_div_mod(bi, 36525);
        vstd::arithmetic::div_mod::lemma_mod_division_less_than_divisor(bi, 36525);
        vstd::arithmetic::div_mod::lemma_mod_bound(bi, 36525);
        vstd::arithmetic::div_mod::lemma_fundamental_div_mod(36525 * c as int, 100);
        vstd::arithmetic::div_mod::lemma_mod_division_less_than_divisor(36525 * c as int, 100);
        vstd::arithmetic::div_mod::lemma_mod_bound(36525 * c as int, 100);
        assert(123 <= b - d0 <= 488);
        vstd::arithmetic::div_mod::lemma_div_pos_is_pos(bi, 36525);
        vstd::arithmetic::div_mod::lemma_div_is_ordered(bi, 537_523_300, 36525);
    }
    let e: i64 = (b - d0) * 10000 / 306001;
    proof {
        let ei = (b - d0) as int * 10000;
        vstd::arithmetic::div_mod::lemma_div_is_ordered(1_230_000, ei, 306001);
        vstd::arithmetic::div_mod::lemma_div_is_ordered(ei, 4_880_000, 306001);
        vstd::arithmetic::div_mod::lemma_fundamental_div_mod(ei, 306001);
        vstd::arithmetic::div_mod::lemma_mod_bound(ei, 306001);
        vstd::arithmetic::div_mod::lemma_fundamental_div_mod(306001 * e as int, 10000);
        vstd::arithmetic::div_mod::lemma_mod_bound(306001 * e as int, 10000);
    }
    let day: i64 = b - d0 - 306001 * e / 10000;
    let month: i64 = if e < 14 {
        e - 1
    } else {
        e - 13
    };
    let year: i64 = if month > 2 {
        c - 4716
    } else {
        c - 4715
    };
    let sec_of_day: i64 = f * 86400 / 1_000_000;
    proof {
        vstd::arithmetic::div_mod::lemma_div_pos_is_pos(f as int * 86400, 1_000_000);
        vstd::arithmetic::div_mod::lemma_div_is_ordered(f as int * 86400, 86_399_913_600, 1_000_000);
        vstd::arithmetic::div_mod::lemma_div_pos_is_pos(sec_of_day as int, 3600);
        vstd::arithmetic::div_mod::lemma_div_is_ordered(sec_of_day as int, 86399, 3600);
        vstd::arithmetic::div_mod::lemma_mod_bound(sec_of_day as int, 3600);
        vstd::arithmetic::div_mod::lemma_mod_bound(sec_of_day as int % 3600, 60);
        vstd::arithmetic::div_mod::lemma_div_pos_is_pos(sec_of_day as int % 3600, 60);
        vstd::arithmetic::div_mod::lemma_div_is_ordered(sec_of_day as int % 3600, 3599, 60);
        vstd::arithmetic::div_mod::lemma_mod_bound(sec_of_day as int, 60);
    }
    CivilDateTime {
        year,
        month,
        day,
        hour: sec_of_day / 3600,
        minute: sec_of_day % 3600 / 60,
        second: sec_of_day % 60,
    }
}

/// The Gregorian leap-year rule.
pub open spec fn spec_is_leap_year(y: int) -> bool {
    y % 4 == 0 && (y % 100 != 0 || y % 400 == 0)
}

/// How many days the given month of the given year has.
pub open spec fn spec_days_in_month(y: int, m: int) -> int {
    if m == 2 {
        if spec_is_leap_year(y) {
            29
        } else {
            28
        }
    } else if m == 4 || m == 6 || m == 9 || m == 11 {
        30
    } else {
        31
    }
}

/// Division with an explicitly named quotient and remainder.
proof fn lemma_div_exact(x: int, q: int, r: int, dd: int)
    requires
        dd > 0,
        0 <= r < dd,
        x == q * dd + r,
    ensures
        x / dd == q,
        x % dd == r,
{
    vstd::arithmetic::div_mod::lemma_fundamental_div_mod_converse_div(x, dd, q, r);
    vstd::arithmetic::div_mod::lemma_fundamental_div_mod_converse_mod(x, dd, q, r);
}

/// Converting a calendar date to its Julian day number and back returns the
/// same date, at midnight, for every valid Gregorian date in the supported
/// window.
pub proof fn lemma_julian_round_trip(y: int, m: int, d: int)
    requires
        1583 <= y <= 9999,
        1 <= m <= 12,
        1 <= d <= spec_days_in_month(y, m),
    ensures
        spec_jd_to_civil(spec_julian_micro(y, m, d)) == (y, m, d, 0int, 0int, 0int),
{
    let yy = if m <= 2 {
        y - 1
    } else {
        y
    };
    let mm = if m <= 2 {
        m + 12
    } else {
        m
    };
    let a = yy / 100;
    let ryy = yy % 100;
    let q4 = a / 4;
    let r4 = a % 4;
    let w = yy % 4;
    let b = 2 - a + q4;
    let f1 = 36525 * (yy + 4716) / 100;
    let f2 = 306001 * (mm + 1) / 10000;
    let total = f1 + f2 + d + b;
    let jd = spec_julian_micro(y, m, d);
    assert(jd == total * 1_000_000 - 1_524_500_000);
    vstd::arithmetic::div_mod::lemma_fundamental_div_mod(yy, 100);
    vstd::arithmetic::div_mod::lemma_mod_bound(yy, 100);
    vstd::arithmetic::div_mod::lemma_fundamental_div_mod(a, 4);
    vstd::arithmetic::div_mod::lemma_mod_bound(a, 4);
    vstd::arithmetic::div_mod::lemma_fundamental_div_mod(yy, 4);
    vstd::arithmetic::div_mod::lemma_mod_bound(yy, 4);
    // The remainder of `36525 (yy + 4716)` modulo 100 is 25 times the
    // year's remainder modulo 4, and `f1` is the matching quotient.
    assert(36525 * (yy + 4716) == (365 * (yy + 4716) + (yy / 4) + 1179) * 100 + 25 * w)
        by (nonlinear_arith)
        requires
            yy == 4 * (yy / 4) + w,
    ;
    lemma_div_exact(
        36525 * (yy + 4716),
        365 * (yy + 4716) + (yy / 4) + 1179,
        25 * w,
        100,
    );
    assert(f1 == 365 * (yy + 4716) + (yy / 4) + 1179);
    // The instant is exactly midnight: the half-day shift leaves no
    // fractional part.
    let zf = jd + 500_000;
    assert(zf == (total - 1524) * 1_000_000 + 0);
    lemma_div_exact(zf, total - 1524, 0, 1_000_000);
    let z = total - 1524;
    // Couple the century digits to the leap rule for the one critical
    // case, the 29th of February.
    if m == 2 && d == 29 {
        assert(spec_is_leap_year(y));
        vstd::arithmetic::div_mod::lemma_fundamental_div_mod(y, 4);
        assert(yy == (y / 4 - 1) * 4 + 3);
        lemma_div_exact(yy, y / 4 - 1, 3, 4);
        assert(w == 3);
        if y % 100 == 0 {
            assert(y % 400 == 0);
            vstd::arithmetic::div_mod::lemma_fundamental_div_mod(y, 100);
            vstd::arithmetic::div_mod::lemma_fundamental_div_mod(y, 400);
            assert(yy == (y / 100 - 1) * 100 + 99);
            lemma_div_exact(yy, y / 100 - 1, 99, 100);
            assert(ryy == 99);
            assert(y == (4 * (y / 400)) * 100 + 0);
            lemma_div_exact(y, 4 * (y / 400), 0, 100);
            assert(y / 100 == 4 * (y / 400));
            assert(a == 4 * (y / 400) - 1);
            assert(a == (y / 400 - 1) * 4 + 3);
            lemma_div_exact(a, y / 400 - 1, 3, 4);
            assert(r4 == 3);
        }
    }
    if ryy == 0 {
        assert(yy == 25 * a * 4 + 0) by (nonlinear_arith)
            requires
                yy == 100 * a + ryy,
                ryy == 0,
        ;
        lemma_div_exact(yy, 25 * a, 0, 4);
        assert(w == 0);
    }
    // The per-month constants: the month-table quotient and remainder.
    let e3 = 306001 * (mm + 1) % 10000;
    vstd::arithmetic::div_mod::lemma_fundamental_div_mod(306001 * (mm + 1), 10000);
    vstd::arithmetic::div_mod::lemma_mod_bound(306001 * (mm + 1), 10000);
    assert(10000 * f2 + e3 == 306001 * (mm + 1));
    if m == 1 {
        assert(f2 == 428 && e3 == 4014) by {
            assert(306001 * 14 == 428 * 10000 + 4014);
            lemma_div_exact(306001 * (mm + 1), 428, 4014, 10000);
        }
    } else if m == 2 {
        assert(f2 == 459 && e3 == 15) by {
            assert(306001 * 15 == 459 * 10000 + 15);
            lemma_div_exact(306001 * (mm + 1), 459, 15, 10000);
        }
    } else if m == 3 {
        assert(f2 == 122 && e3 == 4004) by {
            assert(306001 * 4 == 122 * 10000 + 4004);
            lemma_div_exact(306001 * (mm + 1), 122, 4004, 10000);
        }
    } else if m == 4 {
        assert(f2 == 153 && e3 == 5) by {
            assert(306001 * 5 == 153 * 10000 + 5);
            lemma_div_exact(306001 * (mm + 1), 153, 5, 10000);
        }
    } else if m == 5 {
        assert(f2 == 183 && e3 == 6006) by {
            assert(306001 * 6 == 183 * 10000 + 6006);
            lemma_div_exact(306001 * (mm + 1), 183, 6006, 10000);
        }
    } else if m == 6 {
        assert(f2 == 214 && e3 == 2007) by {
            assert(306001 * 7 == 214 * 10000 + 2007);
            lemma_div_exact(306001 * (mm + 1), 214, 2007, 10000);
        }
    } else if m == 7 {
        assert(f2 == 244 && e3 == 8008) by {
            assert(306001 * 8 == 244 * 10000 + 8008);
            lemma_div_exact(306001 * (mm + 1), 244, 8008, 10000);
        }
    } else if m == 8 {
        assert(f2 == 275 && e3 == 4009) by {
            assert(306001 * 9 == 275 * 10000 + 4009);
            lemma_div_exact(306001 * (mm + 1), 275, 4009, 10000);
        }
    } else if m == 9 {
        assert(f2 == 306 && e3 == 10) by {
            assert(306001 * 10 == 306 * 10000 + 10);
            lemma_div_exact(306001 * (mm + 1), 306, 10, 10000);
        }
    } else if m == 10 {
        assert(f2 == 336 && e3 == 6011) by {
            assert(306001 * 11 == 336 * 10000 + 6011);
            lemma_div_exact(306001 * (mm + 1), 336, 6011, 10000);
        }
    } else if m == 11 {
        assert(f2 == 367 && e3 == 2012) by {
            assert(306001 * 12 == 367 * 10000 + 2012);
            lemma_div_exact(306001 * (mm + 1), 367, 2012, 10000);
        }
    } else {
        assert(f2 == 397 && e3 == 8013) by {
            assert(306001 * 13 == 397 * 10000 + 8013);
            lemma_div_exact(306001 * (mm + 1), 397, 8013, 10000);
        }
    }
    assert(123 <= f2 + d <= 488);
    // The century correction: the quotient below is exactly `a - 4`.
    let rem = 100 * z - 186_721_625 - 3_652_425 * (a - 4);
    assert(rem == 36525 * ryy - 25 * w - 25 * r4 + 100 * (f2 + d) - 12225) by (nonlinear_arith)
        requires
            z == f1 + f2 + d + 2 - a + q4 - 1524,
            f1 == 365 * (yy + 4716) + (yy / 4) + 1179,
            36525 * (yy + 4716) == (365 * (yy + 4716) + (yy / 4) + 1179) * 100 + 25 * w,
            yy == 100 * a + ryy,
            a == 4 * q4 + r4,
            rem == 100 * z - 186_721_625 - 3_652_425 * (a - 4),
    ;
    assert(0 <= rem < 3_652_425) by {
        if ryy == 0 {
            assert(w == 0);
        }
        if m == 2 && d == 29 && ryy == 99 {
            assert(w == 3 && r4 == 3);
        }
    }
    assert(100 * z - 186_721_625 == (a - 4) * 3_652_425 + rem);
    lemma_div_exact(100 * z - 186_721_625, a - 4, rem, 3_652_425);
    let alpha = (z * 100 - 186_721_625) / 3_652_425;
    assert(alpha == a - 4);
    assert(alpha == (q4 - 1) * 4 + r4);
    lemma_div_exact(alpha, q4 - 1, r4, 4);
    assert(alpha / 4 == q4 - 1);
    let bb = (z + 1 + alpha - alpha / 4) + 1524;
    assert(bb == f1 + f2 + d);
    // The year digits come back: the inverse quotient is `yy + 4716`.
    let rem2 = 100 * (f2 + d) - 12210 - 25 * w;
    assert(0 <= rem2 < 36525) by {
        if m == 2 && d == 29 {
            assert(w == 3);
        }
    }
    assert(100 * bb - 12210 == (yy + 4716) * 36525 + rem2) by (nonlinear_arith)
        requires
            bb == f1 + f2 + d,
            36525 * (yy + 4716) == f1 * 100 + 25 * w,
            rem2 == 100 * (f2 + d) - 12210 - 25 * w,
    ;
    lemma_div_exact(100 * bb - 12210, yy + 4716, rem2, 36525);
    let c = (bb * 100 - 12210) / 36525;
    assert(c == yy + 4716);
    let d0 = 36525 * c / 100;
    assert(d0 == f1);
    // The month digits come back: the month-table inverse is `mm + 1`.
    let rem3 = 10000 * d - e3;
    assert(1 <= rem3 < 306001);
    assert((bb - d0) * 10000 == (mm + 1) * 306001 + rem3) by (nonlinear_arith)
        requires
            bb - d0 == f2 + d,
            10000 * f2 + e3 == 306001 * (mm + 1),
            rem3 == 10000 * d - e3,
    ;
    lemma_div_exact((bb - d0) * 10000, mm + 1, rem3, 306001);
    let e = (bb - d0) * 10000 / 306001;
    assert(e == mm + 1);
    assert(306001 * e / 10000 == f2);
    let day = bb - d0 - 306001 * e / 10000;
    assert(day == d);
    let month = if e < 14 {
        e - 1
    } else {
        e - 13
    };
    assert(month == m);
    let year = if month > 2 {
        c - 4716
    } else {
        c - 4715
    };
    assert(year == y);
    assert(zf % 1_000_000 == 0);
    assert(0int * 86400 / 1_000_000 == 0) by {
        vstd::arithmetic::div_mod::lemma_div_of0(1_000_000);
    }
    assert(0int / 3600 == 0 && 0int % 3600 == 0 && 0int / 60 == 0 && 0int % 60 == 0) by {
        vstd::arithmetic::div_mod::lemma_div_of0(3600);
        vstd::arithmetic::div_mod::lemma_div_of0(60);
        vstd::arithmetic::div_mod::lemma_mod_self_0(3600);
        vstd::arithmetic::div_mod::lemma_small_mod(0, 3600);
        vstd::arithmetic::div_mod::lemma_small_mod(0, 60);
    }
}

/// The ISO-8601 rendering `YYYY-MM-DDTHH:MM:SS+HH:MM` of a date-time with a
/// fixed UTC offset given in minutes.
pub open spec fn spec_iso(y: int, mo: int, d: int, h: int, mi: int, s: int, off: int) -> Seq<
    char,
> {
    let sign = if off < 0 {
        seq!['-']
    } else {
        seq!['+']
    };
    let offa = if off < 0 {
        -off
    } else {
        off
    };
    spec_dec_pad(y, 4) + seq!['-'] + spec_dec_pad(mo, 2) + seq!['-'] + spec_dec_pad(d, 2)
        + seq!['T'] + spec_dec_pad(h, 2) + seq![':'] + spec_dec_pad(mi, 2) + seq![':']
        + spec_dec_pad(s, 2) + sign + spec_dec_pad(offa / 60, 2) + seq![':'] + spec_dec_pad(
        offa % 60,
        2,
    )
}

/// Render a date-time and UTC offset in the ISO-8601 form the persisted
/// records carry.
pub fn format_iso(dt: &CivilDateTime, offset_minutes: i64) -> (r: String)
    requires
        0 <= dt.year <= 99_999,
        0 <= dt.month,
        0 <= dt.day,
        0 <= dt.hour,
        0 <= dt.minute,
        0 <= dt.second,
        -1440 < offset_minutes < 1440,
    ensures
        r@ == spec_iso(
            dt.year as int,
            dt.month as int,
            dt.day as int,
            dt.hour as int,
            dt.minute as int,
            dt.second as int,
            offset_minutes as int,
        ),
{
    let mut out = fmt_u64_pad4(dt.year as u64);
    out.append("-");
    let mo = fmt_u64_pad2(dt.month as u64);
    out.append(mo.as_str());
    out.append("-");
    let d = fmt_u64_pad2(dt.day as u64);
    out.append(d.as_str());
    out.append("T");
    let h = fmt_u64_pad2(dt.hour as u64);
    out.append(h.as_str());
    out.append(":");
    let mi = fmt_u64_pad2(dt.minute as u64);
    out.append(mi.as_str());
    out.append(":");
    let s = fmt_u64_pad2(dt.second as u64);
    out.append(s.as_str());
    let offa: i64 = if offset_minutes < 0 {
        out.append("-");
        -offset_minutes
    } else {
        out.append("+");
        offset_minutes
    };
    let oh = fmt_u64_pad2((offa / 60) as u64);
    out.append(oh.as_str());
    out.append(":");
    let om = fmt_u64_pad2((offa % 60) as u64);
    out.append(om.as_str());
    proof {
        reveal_strlit("-");
        reveal_strlit("+");
        reveal_strlit("T");
        reveal_strlit(":");
        vstd::arithmetic::div_mod::lemma_div_pos_is_pos(offa as int, 60);
        vstd::arithmetic::div_mod::lemma_mod_bound(offa as int, 60);
        assert(out@ =~= spec_iso(
            dt.year as int,
            dt.month as int,
            dt.day as int,
            dt.hour as int,
            dt.minute as int,
            dt.second as int,
            offset_minutes as int,
        ));
    }
    out
}

} // verus!
