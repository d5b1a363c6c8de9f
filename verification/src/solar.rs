//! Sunrise, solar noon and sunset from a date and a geographic location.
//!
//! The computation follows the classical simplified solar-position
//! approximation: Julian day count since the J2000 epoch, mean solar noon
//! shifted by the longitude, solar mean anomaly, equation of center,
//! ecliptic longitude, solar transit with its small periodic corrections,
//! solar declination from the axial tilt, and finally the hour angle from
//! `cos(w) = (sin(-0.833deg) - sin(lat) sin(decl)) / (cos(lat) cos(decl))`.
//! The cosine is clamped to `[-1, 1]` before the arc cosine, which turns the
//! polar day and the polar night into degenerate full-length or zero-length
//! days instead of undefined values.
//!
//! Angles are in micro-degrees, instants in Julian micro-days, and the
//! trigonometric values are scaled by one million; see the `trig` module.

use vstd::prelude::*;

verus! {

use crate::datetime::{
    CivilDate,
    CivilDateTime,
    JD_MICRO_MIN,
    JD_MICRO_MAX,
    spec_julian_micro,
    spec_jd_to_civil,
    spec_iso,
    to_julian_micro,
    julian_micro_to_civil,
    format_iso,
};
use crate::num::{div_floor, mod_floor, mul_div_floor, isqrt, spec_isqrt, lemma_div_bounds,
    lemma_spec_isqrt_bracket};
use crate::trig::{
    spec_sin_half,
    spec_sin_signed,
    spec_sin_full,
    spec_acos,
    sin_half,
    sin_signed,
    sin_full,
    acos_half,
    lemma_sin_half_bounds,
    lemma_sin_full_bounds,
    lemma_sin_signed_bounds,
    lemma_sin_half_at_least,
    lemma_acos_bracket,
    lemma_acos_not_small,
    lemma_acos_at_min,
};

/// Geographic location. Latitude and longitude are in micro-degrees
/// (one-millionth of a degree); the timezone label is informational only.
#[derive(Debug, Clone)]
pub struct Location {
    pub latitude_udeg: i64,
    pub longitude_udeg: i64,
    pub timezone: String,
}

impl Location {
    /// Latitudes within `[-90, 90]` degrees, longitudes within
    /// `[-180, 180]` degrees.
    pub open spec fn wf(self) -> bool {
        &&& -90_000_000 <= self.latitude_udeg <= 90_000_000
        &&& -180_000_000 <= self.longitude_udeg <= 180_000_000
    }
}

impl Default for Location {
    /// The default location is New York City.
    fn default() -> (r: Location)
        ensures
            r.latitude_udeg == 40_712_800,
            r.longitude_udeg == -74_006_000,
            r.timezone@ == "America/New_York"@,
            r.wf(),
    {
        Location {
            latitude_udeg: 40_712_800,
            longitude_udeg: -74_006_000,
            timezone: String::from_str("America/New_York"),
        }
    }
}

/// Solar times for one date at one location, rendered in local civil time.
#[derive(Debug, Clone)]
pub struct SolarTimes {
    /// Sunrise in ISO format.
    pub sunrise: String,
    /// Sunset in ISO format.
    pub sunset: String,
    /// Solar noon in ISO format.
    pub solar_noon: String,
    /// Day length in minutes.
    pub day_length: i64,
    /// Whether the reference instant falls in the daytime window.
    pub is_day: bool,
}

/// Whole days since the J2000 epoch, rounded as the sunrise equation asks.
pub open spec fn spec_day_count(jd: int) -> int {
    (jd - 2_451_544_499_200) / 1_000_000
}

/// Mean solar noon in micro-days relative to J2000, shifted by longitude.
pub open spec fn spec_j_star(jd: int, lon: int) -> int {
    spec_day_count(jd) * 1_000_000 - lon / 360
}

/// Solar mean anomaly in micro-degrees, reduced to `[0, 360)` degrees.
pub open spec fn spec_mean_anomaly(jd: int, lon: int) -> int {
    (357_529_100 + spec_j_star(jd, lon) * 98_560_028 / 100_000_000) % 360_000_000
}

/// Equation-of-center correction in micro-degrees.
pub open spec fn spec_center(m: int) -> int {
    spec_sin_full(m) * 1_914_800 / 1_000_000 + spec_sin_full(2 * m % 360_000_000) * 20_000
        / 1_000_000 + spec_sin_full(3 * m % 360_000_000) * 300 / 1_000_000
}

/// Ecliptic longitude in micro-degrees, reduced to `[0, 360)` degrees.
pub open spec fn spec_lambda(jd: int, lon: int) -> int {
    let m = spec_mean_anomaly(jd, lon);
    (m + spec_center(m) + 282_937_200) % 360_000_000
}

/// Solar transit (solar noon) in Julian micro-days.
#[verifier::opaque]
pub open spec fn spec_transit(jd: int, lon: int) -> int {
    let m = spec_mean_anomaly(jd, lon);
    let lam = spec_lambda(jd, lon);
    2_451_545_000_000 + spec_j_star(jd, lon) + spec_sin_full(m) * 5_300 / 1_000_000 - spec_sin_full(
        2 * lam % 360_000_000,
    ) * 6_900 / 1_000_000
}

/// Scaled sine of the solar declination.
pub open spec fn spec_sin_decl(jd: int, lon: int) -> int {
    spec_sin_full(spec_lambda(jd, lon)) * 397_789 / 1_000_000
}

/// Scaled cosine of the solar declination (the declination never leaves the
/// first and fourth quadrant, so the root is taken positive).
pub open spec fn spec_cos_decl(jd: int, lon: int) -> int {
    let sd = spec_sin_decl(jd, lon);
    spec_isqrt(1_000_000_000_000 - sd * sd)
}

/// Scaled cosine of the hour angle, clamped to `[-1, 1]`. A vanishing
/// denominator (the poles) is treated like an out-of-range cosine, on the
/// side the numerator points to.
#[verifier::opaque]
pub open spec fn spec_cos_omega(jd: int, lat: int, lon: int) -> int {
    let sd = spec_sin_decl(jd, lon);
    let cd = spec_cos_decl(jd, lon);
    let sl = spec_sin_signed(lat);
    let cl = spec_sin_half(lat + 90_000_000);
    let num = -14_538 - sl * sd / 1_000_000;
    let den = cl * cd / 1_000_000;
    let raw = if den <= 0 {
        if num <= 0 {
            -1_000_000
        } else {
            1_000_000
        }
    } else {
        num * 1_000_000 / den
    };
    if raw < -1_000_000 {
        -1_000_000
    } else if raw > 1_000_000 {
        1_000_000
    } else {
        raw
    }
}

/// Hour angle in micro-degrees.
#[verifier::opaque]
pub open spec fn spec_omega(jd: int, lat: int, lon: int) -> int {
    spec_acos(spec_cos_omega(jd, lat, lon))
}

/// Sunrise in Julian micro-days: the transit minus the hour angle as a day
/// fraction.
#[verifier::opaque]
pub open spec fn spec_sunrise(jd: int, lat: int, lon: int) -> int {
    spec_transit(jd, lon) - spec_omega(jd, lat, lon) / 360
}

/// Sunset in Julian micro-days.
#[verifier::opaque]
pub open spec fn spec_sunset(jd: int, lat: int, lon: int) -> int {
    spec_transit(jd, lon) + spec_omega(jd, lat, lon) / 360
}

/// Ranges of every intermediate quantity of the solar computation, for the
/// supported calendar window and any admissible location.
pub proof fn lemma_solar_ranges(jd: int, lat: int, lon: int)
    requires
        JD_MICRO_MIN + 2_000_000 <= jd <= JD_MICRO_MAX - 5_000_000,
        -90_000_000 <= lat <= 90_000_000,
        -180_000_000 <= lon <= 180_000_000,
    ensures
        -152_400 <= spec_day_count(jd) <= 2_921_941,
        jd - 2_451_546_000_000 <= spec_day_count(jd) * 1_000_000 <= jd - 2_451_544_499_200,
        -153_000_000_000 <= spec_j_star(jd, lon) <= 2_922_000_000_000,
        0 <= spec_mean_anomaly(jd, lon) < 360_000_000,
        -1_935_402 <= spec_center(spec_mean_anomaly(jd, lon)) <= 1_935_401,
        0 <= spec_lambda(jd, lon) < 360_000_000,
        jd - 1_600_000 <= spec_transit(jd, lon) <= jd + 1_600_000,
        -397_790 <= spec_sin_decl(jd, lon) <= 397_789,
        0 <= spec_cos_decl(jd, lon) <= 1_000_000,
        -1_000_000 <= spec_cos_omega(jd, lat, lon) <= 1_000_000,
        0 <= spec_omega(jd, lat, lon) < 180_000_000,
        0 <= spec_omega(jd, lat, lon) / 360 <= 500_000,
        spec_sunrise(jd, lat, lon) <= spec_transit(jd, lon) <= spec_sunset(jd, lat, lon),
        jd - 2_100_000 <= spec_sunrise(jd, lat, lon),
        spec_sunset(jd, lat, lon) <= jd + 2_100_000,
{
        reveal(spec_cos_omega);
        reveal(spec_omega);
        reveal(spec_transit);
        reveal(spec_sunrise);
        reveal(spec_sunset);
    let n = spec_day_count(jd);
    assert(-152_400 <= n <= 2_921_941 && jd - 2_451_546_000_000 <= n * 1_000_000 <= jd
        - 2_451_544_499_200) by {
        vstd::arithmetic::div_mod::lemma_fundamental_div_mod(jd - 2_451_544_499_200, 1_000_000);
        vstd::arithmetic::div_mod::lemma_mod_bound(jd - 2_451_544_499_200, 1_000_000);
        lemma_div_bounds(jd - 2_451_544_499_200, 1_000_000, -152_400, 2_921_941);
    }
    assert(-500_001 <= lon / 360 <= 500_000) by {
        lemma_div_bounds(lon, 360, -500_001, 500_000);
    }
    let js = spec_j_star(jd, lon);
    let mterm = js * 98_560_028 / 100_000_000;
    assert(-150_800_000_000 <= mterm <= 2_880_000_000_000) by {
        assert(-150_800_000_000int * 100_000_000 <= js * 98_560_028 <= 2_880_000_000_000int
            * 100_000_000) by (nonlinear_arith)
            requires
                -153_000_000_000 <= js <= 2_922_000_000_000,
        ;
        lemma_div_bounds(js * 98_560_028, 100_000_000, -150_800_000_000, 2_880_000_000_000);
    }
    let m = spec_mean_anomaly(jd, lon);
    assert(0 <= m < 360_000_000) by {
        vstd::arithmetic::div_mod::lemma_mod_bound(357_529_100 + mterm, 360_000_000);
    }
    assert(0 <= 2 * m % 360_000_000 < 360_000_000) by {
        vstd::arithmetic::div_mod::lemma_mod_bound(2 * m, 360_000_000);
    }
    assert(0 <= 3 * m % 360_000_000 < 360_000_000) by {
        vstd::arithmetic::div_mod::lemma_mod_bound(3 * m, 360_000_000);
    }
    let s1 = spec_sin_full(m);
    let s2 = spec_sin_full(2 * m % 360_000_000);
    let s3 = spec_sin_full(3 * m % 360_000_000);
    lemma_sin_full_bounds(m);
    lemma_sin_full_bounds(2 * m % 360_000_000);
    lemma_sin_full_bounds(3 * m % 360_000_000);
    assert(-1_914_801 <= s1 * 1_914_800 / 1_000_000 <= 1_914_800) by {
        lemma_div_bounds(s1 * 1_914_800, 1_000_000, -1_914_801, 1_914_800);
    }
    assert(-20_001 <= s2 * 20_000 / 1_000_000 <= 20_000) by {
        lemma_div_bounds(s2 * 20_000, 1_000_000, -20_001, 20_000);
    }
    assert(-601 <= s3 * 300 / 1_000_000 <= 300) by {
        lemma_div_bounds(s3 * 300, 1_000_000, -601, 300);
    }
    let lam = spec_lambda(jd, lon);
    assert(0 <= lam < 360_000_000) by {
        vstd::arithmetic::div_mod::lemma_mod_bound(
            m + spec_center(m) + 282_937_200,
            360_000_000,
        );
    }
    assert(0 <= 2 * lam % 360_000_000 < 360_000_000) by {
        vstd::arithmetic::div_mod::lemma_mod_bound(2 * lam, 360_000_000);
    }
    let sl2 = spec_sin_full(2 * lam % 360_000_000);
    lemma_sin_full_bounds(2 * lam % 360_000_000);
    assert(-5_301 <= s1 * 5_300 / 1_000_000 <= 5_300) by {
        lemma_div_bounds(s1 * 5_300, 1_000_000, -5_301, 5_300);
    }
    assert(-6_901 <= sl2 * 6_900 / 1_000_000 <= 6_900) by {
        lemma_div_bounds(sl2 * 6_900, 1_000_000, -6_901, 6_900);
    }
    let lamsin = spec_sin_full(lam);
    lemma_sin_full_bounds(lam);
    let sd = spec_sin_decl(jd, lon);
    assert(-397_790 <= sd <= 397_789) by {
        lemma_div_bounds(lamsin * 397_789, 1_000_000, -397_790, 397_789);
    }
    let v = 1_000_000_000_000 - sd * sd;
    assert(841_763_115_900 <= v <= 1_000_000_000_000) by (nonlinear_arith)
        requires
            -397_790 <= sd <= 397_789,
            v == 1_000_000_000_000 - sd * sd,
    ;
    let cd = spec_cos_decl(jd, lon);
    lemma_spec_isqrt_bracket(v);
    assert(0 <= cd <= 1_000_000) by {
        assert(cd * cd <= v);
        assert(cd <= 1_000_000) by (nonlinear_arith)
            requires
                cd >= 0,
                cd * cd <= 1_000_000_000_000,
        ;
    }
    let sl = spec_sin_signed(lat);
    let cl = spec_sin_half(lat + 90_000_000);
    lemma_sin_signed_bounds(lat);
    lemma_sin_half_bounds(lat + 90_000_000);
    let num = -14_538 - sl * sd / 1_000_000;
    assert(-412_328 <= num <= 397_253) by {
        assert(-397_790_000_000 <= sl * sd <= 397_790_000_000) by (nonlinear_arith)
            requires
                -1_000_000 <= sl <= 1_000_000,
                -397_790 <= sd <= 397_789,
        ;
        lemma_div_bounds(sl * sd, 1_000_000, -397_790, 397_790);
    }
    let den = cl * cd / 1_000_000;
    assert(0 <= den <= 1_000_000) by {
        assert(0 <= cl * cd <= 1_000_000_000_000) by (nonlinear_arith)
            requires
                0 <= cl <= 1_000_000,
                0 <= cd <= 1_000_000,
        ;
        lemma_div_bounds(cl * cd, 1_000_000, 0, 1_000_000);
    }
    let co = spec_cos_omega(jd, lat, lon);
    assert(-1_000_000 <= co <= 1_000_000);
    let om = spec_omega(jd, lat, lon);
    lemma_acos_bracket(co);
    assert(0 <= om / 360 <= 500_000) by {
        lemma_div_bounds(om, 360, 0, 500_000);
    }
}

/// For latitudes strictly between the 60-degree parallels the clamped
/// cosine of the hour angle keeps a clear margin from both ends.
#[verifier::rlimit(100)]
pub proof fn lemma_cos_omega_margin(jd: int, lat: int, lon: int)
    requires
        JD_MICRO_MIN + 2_000_000 <= jd <= JD_MICRO_MAX - 5_000_000,
        -60_000_000 < lat < 60_000_000,
        -180_000_000 <= lon <= 180_000_000,
    ensures
        -899_999 <= spec_cos_omega(jd, lat, lon) <= 899_999,
{
    reveal(spec_cos_omega);
    lemma_solar_ranges(jd, lat, lon);
    let sd = spec_sin_decl(jd, lon);
    let v = 1_000_000_000_000 - sd * sd;
    assert(v >= 841_763_115_900) by (nonlinear_arith)
        requires
            -397_790 <= sd <= 397_789,
            v == 1_000_000_000_000 - sd * sd,
    ;
    let cd = spec_cos_decl(jd, lon);
    lemma_spec_isqrt_bracket(v);
    assert(cd >= 917_476) by {
        assert((cd + 1) * (cd + 1) > v);
        if cd <= 917_475 {
            assert((cd + 1) * (cd + 1) <= 917_476 * 917_476) by (nonlinear_arith)
                requires
                    0 <= cd + 1 <= 917_476,
            ;
            assert(917_476int * 917_476 == 841_762_210_576) by (nonlinear_arith);
            assert(false);
        }
    }
    let cl = spec_sin_half(lat + 90_000_000);
    lemma_sin_half_bounds(lat + 90_000_000);
    assert(cl >= 500_000) by {
        lemma_sin_half_at_least(lat + 90_000_000, 30_000_000, 500_000);
    }
    assert(cd <= 1_000_000);
    let den = cl * cd / 1_000_000;
    assert(den >= 458_738) by {
        assert(458_738_000_000 <= cl * cd <= 1_000_000_000_000) by (nonlinear_arith)
            requires
                500_000 <= cl <= 1_000_000,
                917_476 <= cd <= 1_000_000,
        ;
        lemma_div_bounds(cl * cd, 1_000_000, 458_738, 1_000_000);
    }
    let sl = spec_sin_signed(lat);
    lemma_sin_signed_bounds(lat);
    let num = -14_538 - sl * sd / 1_000_000;
    assert(-412_329 <= num <= 412_329) by {
        assert(-397_790_000_000 <= sl * sd <= 397_790_000_000) by (nonlinear_arith)
            requires
                -1_000_000 <= sl <= 1_000_000,
                -397_790 <= sd <= 397_789,
        ;
        lemma_div_bounds(sl * sd, 1_000_000, -397_790, 397_790);
    }
    assert(-412_329_000_000 <= num * 1_000_000 <= 412_329_000_000);
    assert(-899_999 * den <= num * 1_000_000 <= 899_999 * den) by (nonlinear_arith)
        requires
            den >= 458_738,
            -412_329_000_000 <= num * 1_000_000 <= 412_329_000_000,
    ;
    let raw = num * 1_000_000 / den;
    assert(-899_999 <= raw <= 899_999) by {
        lemma_div_bounds(num * 1_000_000, den, -899_999, 899_999);
    }
}

/// Away from the polar caps the hour angle is bounded well away from zero,
/// so sunrise comes strictly before solar noon and solar noon strictly
/// before sunset — by more than an hour on each side.
pub proof fn lemma_nonpolar_day_ordered(jd: int, lat: int, lon: int)
    requires
        JD_MICRO_MIN + 2_000_000 <= jd <= JD_MICRO_MAX - 5_000_000,
        -60_000_000 < lat < 60_000_000,
        -180_000_000 <= lon <= 180_000_000,
    ensures
        spec_sunrise(jd, lat, lon) + 49_997 <= spec_transit(jd, lon),
        spec_transit(jd, lon) + 49_997 <= spec_sunset(jd, lat, lon),
{
    reveal(spec_omega);
    reveal(spec_sunrise);
    reveal(spec_sunset);
    lemma_solar_ranges(jd, lat, lon);
    lemma_cos_omega_margin(jd, lat, lon);
    let co = spec_cos_omega(jd, lat, lon);
    let om = spec_omega(jd, lat, lon);
    lemma_acos_bracket(co);
    lemma_acos_not_small(co, om);
    assert(om / 360 >= 49_997) by {
        lemma_div_bounds(om, 360, 49_997, 500_000);
    }
}

/// When the hour-angle cosine is clamped at -1 (polar summer), the day
/// degenerates to the full day: sunset minus sunrise spans the whole
/// 24 hours up to the bisection tolerance.
pub proof fn lemma_polar_summer_full_day(jd: int, lat: int, lon: int)
    requires
        JD_MICRO_MIN + 2_000_000 <= jd <= JD_MICRO_MAX - 5_000_000,
        -90_000_000 <= lat <= 90_000_000,
        -180_000_000 <= lon <= 180_000_000,
        spec_cos_omega(jd, lat, lon) == -1_000_000,
    ensures
        spec_sunset(jd, lat, lon) - spec_sunrise(jd, lat, lon) >= 999_994,
{
    reveal(spec_omega);
    reveal(spec_sunrise);
    reveal(spec_sunset);
    lemma_solar_ranges(jd, lat, lon);
    let co = spec_cos_omega(jd, lat, lon);
    let om = spec_omega(jd, lat, lon);
    lemma_acos_bracket(co);
    lemma_acos_at_min(co, om);
    assert(om / 360 >= 499_997) by {
        lemma_div_bounds(om, 360, 499_997, 500_000);
    }
}

/// Compute sunrise, solar transit and sunset for the instant `jd` (Julian
/// micro-days, taken at the midnight that starts the civil date), returned
/// as Julian micro-day instants.
pub fn solar_times_jd(jd: i64, lat: i64, lon: i64) -> (r: (i64, i64, i64))
    requires
        JD_MICRO_MIN + 2_000_000 <= jd <= JD_MICRO_MAX - 5_000_000,
        -90_000_000 <= lat <= 90_000_000,
        -180_000_000 <= lon <= 180_000_000,
    ensures
        r.0 == spec_sunrise(jd as int, lat as int, lon as int),
        r.1 == spec_transit(jd as int, lon as int),
        r.2 == spec_sunset(jd as int, lat as int, lon as int),
        r.0 <= r.1 <= r.2,
        r.2 - r.0 <= 1_000_000,
        jd - 2_100_000 <= r.0,
        r.2 <= jd + 2_100_000,
{
    proof {
        reveal(spec_cos_omega);
        reveal(spec_omega);
        reveal(spec_transit);
        reveal(spec_sunrise);
        reveal(spec_sunset);
        lemma_solar_ranges(jd as int, lat as int, lon as int);
    }
    let n: i64 = div_floor(jd - 2_451_544_499_200, 1_000_000);
    let j_star: i64 = n * 1_000_000 - div_floor(lon, 360);
    let m: i64 = mod_floor(
        357_529_100 + mul_div_floor(j_star, 98_560_028, 100_000_000),
        360_000_000,
    );
    let s1: i64 = sin_full(m);
    let s2: i64 = sin_full(mod_floor(2 * m, 360_000_000));
    let s3: i64 = sin_full(mod_floor(3 * m, 360_000_000));
    let center: i64 = mul_div_floor(s1, 1_914_800, 1_000_000) + mul_div_floor(
        s2,
        20_000,
        1_000_000,
    ) + mul_div_floor(s3, 300, 1_000_000);
    let lam: i64 = mod_floor(m + center + 282_937_200, 360_000_000);
    let sl2: i64 = sin_full(mod_floor(2 * lam, 360_000_000));
    let transit: i64 = 2_451_545_000_000 + j_star + mul_div_floor(s1, 5_300, 1_000_000)
        - mul_div_floor(sl2, 6_900, 1_000_000);
    let sin_lam: i64 = sin_full(lam);
    let sd: i64 = mul_div_floor(sin_lam, 397_789, 1_000_000);
    proof {
        assert(-397_790 <= sd <= 397_789) by {
            lemma_div_bounds(sin_lam as int * 397_789, 1_000_000, -397_790, 397_789);
        }
        assert(0 <= sd as int * sd <= 158_236_884_100) by (nonlinear_arith)
            requires
                -397_790 <= sd <= 397_789,
        ;
    }
    let v: u64 = (1_000_000_000_000 - sd * sd) as u64;
    let cd: i64 = isqrt(v) as i64;
    proof {
        assert(cd <= 1_000_000) by (nonlinear_arith)
            requires
                cd >= 0,
                cd as int * cd <= 1_000_000_000_000,
        ;
    }
    let sl: i64 = sin_signed(lat);
    let cl: i64 = sin_half(lat + 90_000_000);
    let num: i64 = -14_538 - mul_div_floor(sl, sd, 1_000_000);
    let den: i64 = mul_div_floor(cl, cd, 1_000_000);
    proof {
        assert(-1_000_000_000_000 <= sl as int * sd <= 1_000_000_000_000) by (nonlinear_arith)
            requires
                -1_000_000 <= sl <= 1_000_000,
                -397_790 <= sd <= 397_790,
        ;
        lemma_div_bounds(sl as int * sd, 1_000_000, -1_000_000, 1_000_000);
        assert(0 <= cl as int * cd <= 1_000_000_000_000) by (nonlinear_arith)
            requires
                0 <= cl <= 1_000_000,
                0 <= cd <= 1_000_000,
        ;
        lemma_div_bounds(cl as int * cd, 1_000_000, 0, 1_000_000);
    }
    let raw: i64 = if den <= 0 {
        if num <= 0 {
            -1_000_000
        } else {
            1_000_000
        }
    } else {
        div_floor(num * 1_000_000, den)
    };
    let c: i64 = if raw < -1_000_000 {
        -1_000_000
    } else if raw > 1_000_000 {
        1_000_000
    } else {
        raw
    };
    let omega: i64 = acos_half(c);
    let om360: i64 = div_floor(omega, 360);
    proof {
        assert(0 <= om360 <= 500_000) by {
            lemma_div_bounds(omega as int, 360, 0, 500_000);
        }
    }
    (transit - om360, transit, transit + om360)
}

/// A Julian micro-day instant shifted by a whole number of minutes.
pub open spec fn spec_shift_minutes(u: int, minutes: int) -> int {
    u + minutes * 1_000_000 / 1440
}

/// The ISO rendering of an instant, moved by an extra minute offset and then
/// into the local time zone.
#[verifier::opaque]
pub open spec fn spec_format_shifted(u: int, extra: int, tz: int) -> Seq<char> {
    let t = spec_jd_to_civil(spec_shift_minutes(spec_shift_minutes(u, extra), tz));
    spec_iso(t.0, t.1, t.2, t.3, t.4, t.5, tz)
}

/// The ISO rendering of an instant in the local time zone.
pub open spec fn spec_format_local(u: int, tz: int) -> Seq<char> {
    spec_format_shifted(u, 0, tz)
}

/// The length in minutes of the span between two instants, rounded to the
/// nearest minute.
pub open spec fn spec_day_length_minutes(diff: int) -> int {
    (diff * 1440 + 500_000) / 1_000_000
}

/// An instant in micro-minutes on the Julian scale, for comparisons.
pub open spec fn spec_micro_minutes(u: int) -> int {
    u * 1440
}

/// Render an instant, first shifted by `extra_minutes`, in the local time
/// zone given by `tz_offset_minutes`.
pub fn format_instant_local(u: i64, extra_minutes: i64, tz_offset_minutes: i64) -> (r: String)
    requires
        JD_MICRO_MIN - 1_000_000 <= u <= JD_MICRO_MAX - 2_000_000,
        -1440 <= extra_minutes <= 1440,
        -1440 < tz_offset_minutes < 1440,
    ensures
        r@ == spec_format_shifted(u as int, extra_minutes as int, tz_offset_minutes as int),
{
    proof {
        reveal(spec_format_shifted);
    }
    let u2: i64 = u + div_floor(extra_minutes * 1_000_000, 1440);
    let ul: i64 = u2 + div_floor(tz_offset_minutes * 1_000_000, 1440);
    proof {
        lemma_div_bounds(extra_minutes as int * 1_000_000, 1440, -1_000_000, 1_000_000);
        lemma_div_bounds(tz_offset_minutes as int * 1_000_000, 1440, -1_000_000, 1_000_000);
    }
    let c: CivilDateTime = julian_micro_to_civil(ul);
    format_iso(&c, tz_offset_minutes)
}

/// Solar times for one date at one location. The reference instant
/// `now_utc_mm` (micro-minutes on the Julian scale, UTC) decides the
/// `is_day` flag, and `tz_offset_minutes` places the rendered strings in
/// local civil time.
#[verifier::rlimit(100)]
pub fn get_solar_times(date: &CivilDate, location: &Location, now_utc_mm: i64,
    tz_offset_minutes: i64) -> (r: SolarTimes)
    requires
        date.wf(),
        location.wf(),
        -1440 < tz_offset_minutes < 1440,
    ensures
        ({
            let jd = spec_julian_micro(date.year as int, date.month as int, date.day as int);
            let lat = location.latitude_udeg as int;
            let lon = location.longitude_udeg as int;
            let rise = spec_sunrise(jd, lat, lon);
            let set = spec_sunset(jd, lat, lon);
            &&& r.sunrise@ == spec_format_local(rise, tz_offset_minutes as int)
            &&& r.solar_noon@ == spec_format_local(
                spec_transit(jd, lon),
                tz_offset_minutes as int,
            )
            &&& r.sunset@ == spec_format_local(set, tz_offset_minutes as int)
            &&& r.day_length == spec_day_length_minutes(set - rise)
            &&& 0 <= r.day_length <= 1440
            &&& r.is_day == (spec_micro_minutes(rise) <= now_utc_mm < spec_micro_minutes(set))
        }),
{
    let ghost sjd = spec_julian_micro(date.year as int, date.month as int, date.day as int);
    let ghost slat = location.latitude_udeg as int;
    let ghost slon = location.longitude_udeg as int;
    let jd: i64 = to_julian_micro(date);
    let (rise, noon, set): (i64, i64, i64) = solar_times_jd(
        jd,
        location.latitude_udeg,
        location.longitude_udeg,
    );
    proof {
        assert(rise == spec_sunrise(sjd, slat, slon));
        assert(noon == spec_transit(sjd, slon));
        assert(set == spec_sunset(sjd, slat, slon));
    }
    let diff: i64 = set - rise;
    let day_length: i64 = (diff * 1440 + 500_000) / 1_000_000;
    proof {
        lemma_div_bounds(diff as int * 1440 + 500_000, 1_000_000, 0, 1441);
        crate::num::lemma_div_strict_upper(diff as int * 1440 + 500_000, 1_000_000, 1441);
        assert(day_length == spec_day_length_minutes(set as int - rise as int));
    }
    let is_day: bool = rise * 1440 <= now_utc_mm && now_utc_mm < set * 1440;
    let sunrise: String = format_instant_local(rise, 0, tz_offset_minutes);
    let sunset: String = format_instant_local(set, 0, tz_offset_minutes);
    let solar_noon: String = format_instant_local(noon, 0, tz_offset_minutes);
    proof {
        assert(sunrise@ == spec_format_local(rise as int, tz_offset_minutes as int));
        assert(sunset@ == spec_format_local(set as int, tz_offset_minutes as int));
        assert(solar_noon@ == spec_format_local(noon as int, tz_offset_minutes as int));
    }
    SolarTimes { sunrise, sunset, solar_noon, day_length, is_day }
}

/// Whether the instant `now_utc_mm` falls in the daytime window of the given
/// date: from the offset-adjusted sunrise, inclusive, to the offset-adjusted
/// sunset, exclusive. Offsets are in minutes and may be negative.
pub fn is_daytime(location: &Location, sunrise_offset: i64, sunset_offset: i64, date: &CivilDate,
    now_utc_mm: i64) -> (r: bool)
    requires
        date.wf(),
        location.wf(),
        -1_000_000_000 <= sunrise_offset <= 1_000_000_000,
        -1_000_000_000 <= sunset_offset <= 1_000_000_000,
    ensures
        ({
            let jd = spec_julian_micro(date.year as int, date.month as int, date.day as int);
            let lat = location.latitude_udeg as int;
            let lon = location.longitude_udeg as int;
            r == (spec_micro_minutes(spec_sunrise(jd, lat, lon)) + sunrise_offset * 1_000_000
                <= now_utc_mm < spec_micro_minutes(spec_sunset(jd, lat, lon)) + sunset_offset
                * 1_000_000)
        }),
{
    let jd: i64 = to_julian_micro(date);
    let (rise, _noon, set): (i64, i64, i64) = solar_times_jd(
        jd,
        location.latitude_udeg,
        location.longitude_udeg,
    );
    let rise_adj: i64 = rise * 1440 + sunrise_offset * 1_000_000;
    let set_adj: i64 = set * 1440 + sunset_offset * 1_000_000;
    rise_adj <= now_utc_mm && now_utc_mm < set_adj
}

/// The next day/night transition after the instant `now`: today's
/// offset-adjusted sunrise if that is still ahead, else today's
/// offset-adjusted sunset, else tomorrow's sunrise. The flag is true when
/// the transition is to day.
pub open spec fn spec_next_transition(jd: int, lat: int, lon: int, sr_off: int, ss_off: int,
    now: int, tz: int) -> (Seq<char>, bool) {
    let rise_adj = spec_micro_minutes(spec_sunrise(jd, lat, lon)) + sr_off * 1_000_000;
    let set_adj = spec_micro_minutes(spec_sunset(jd, lat, lon)) + ss_off * 1_000_000;
    if now < rise_adj {
        (spec_format_shifted(spec_sunrise(jd, lat, lon), sr_off, tz), true)
    } else if now < set_adj {
        (spec_format_shifted(spec_sunset(jd, lat, lon), ss_off, tz), false)
    } else {
        (spec_format_shifted(spec_sunrise(jd + 1_000_000, lat, lon), sr_off, tz), true)
    }
}

/// The next day/night transition after `now_utc_mm`: today's offset-adjusted
/// sunrise if it is still ahead, else today's offset-adjusted sunset, else
/// tomorrow's sunrise. The flag is true when the transition is to day.
///
/// The one-day bound on the offsets is a model limit: the returned instant
/// is rendered as a calendar date, so the offset-shifted instant must stay
/// inside the calendar window the conversion covers, and one day of slack
/// on either side of any supported date is what that window grants. The
/// comparison-only `is_daytime` accepts far larger offsets.
pub fn get_next_transition(location: &Location, sunrise_offset: i64, sunset_offset: i64,
    date: &CivilDate, now_utc_mm: i64, tz_offset_minutes: i64) -> (r: (String, bool))
    requires
        date.wf(),
        location.wf(),
        -1440 <= sunrise_offset <= 1440,
        -1440 <= sunset_offset <= 1440,
        -1440 < tz_offset_minutes < 1440,
    ensures
        r.0@ == spec_next_transition(
            spec_julian_micro(date.year as int, date.month as int, date.day as int),
            location.latitude_udeg as int,
            location.longitude_udeg as int,
            sunrise_offset as int,
            sunset_offset as int,
            now_utc_mm as int,
            tz_offset_minutes as int,
        ).0,
        r.1 == spec_next_transition(
            spec_julian_micro(date.year as int, date.month as int, date.day as int),
            location.latitude_udeg as int,
            location.longitude_udeg as int,
            sunrise_offset as int,
            sunset_offset as int,
            now_utc_mm as int,
            tz_offset_minutes as int,
        ).1,
{
    let jd: i64 = to_julian_micro(date);
    let (rise, _noon, set): (i64, i64, i64) = solar_times_jd(
        jd,
        location.latitude_udeg,
        location.longitude_udeg,
    );
    let rise_adj: i64 = rise * 1440 + sunrise_offset * 1_000_000;
    let set_adj: i64 = set * 1440 + sunset_offset * 1_000_000;
    if now_utc_mm < rise_adj {
        (format_instant_local(rise, sunrise_offset, tz_offset_minutes), true)
    } else if now_utc_mm < set_adj {
        (format_instant_local(set, sunset_offset, tz_offset_minutes), false)
    } else {
        let (rise_t, _noon_t, _set_t): (i64, i64, i64) = solar_times_jd(
            jd + 1_000_000,
            location.latitude_udeg,
            location.longitude_udeg,
        );
        (format_instant_local(rise_t, sunrise_offset, tz_offset_minutes), true)
    }
}

/// A clock reading as an instant in UTC micro-minutes on the Julian scale.
pub open spec fn spec_clock_utc_mm(n: crate::clock::ClockNow) -> int {
    spec_julian_micro(n.year as int, n.month as int, n.day as int) * 1440 + (n.hour * 60
        + n.minute) * 1_000_000 + n.second * 1_000_000 / 60 - n.tz_offset_minutes * 1_000_000
}

/// Turn a clock reading into a UTC instant in micro-minutes.
pub fn clock_utc_mm(n: &crate::clock::ClockNow) -> (r: i64)
    requires
        n.wf(),
    ensures
        r == spec_clock_utc_mm(*n),
{
    let date = CivilDate { year: n.year, month: n.month, day: n.day };
    let jd: i64 = to_julian_micro(&date);
    let sec_part: i64 = n.second * 1_000_000 / 60;
    proof {
        lemma_div_bounds(n.second as int * 1_000_000, 60, 0, 1_000_000);
    }
    jd * 1440 + (n.hour * 60 + n.minute) * 1_000_000 + sec_part - n.tz_offset_minutes * 1_000_000
}

/// What a solar-times result says when it was computed from the clock
/// reading `n`: every field is the specified value for `n`'s date, instant
/// and time-zone offset.
#[verifier::opaque]
pub open spec fn spec_times_of_clock(n: crate::clock::ClockNow, lat: int, lon: int,
    t: SolarTimes) -> bool {
    let jd = spec_julian_micro(n.year as int, n.month as int, n.day as int);
    let rise = spec_sunrise(jd, lat, lon);
    let set = spec_sunset(jd, lat, lon);
    &&& t.sunrise@ == spec_format_local(rise, n.tz_offset_minutes as int)
    &&& t.solar_noon@ == spec_format_local(spec_transit(jd, lon), n.tz_offset_minutes as int)
    &&& t.sunset@ == spec_format_local(set, n.tz_offset_minutes as int)
    &&& t.day_length == spec_day_length_minutes(set - rise)
    &&& t.is_day == (spec_micro_minutes(rise) <= spec_clock_utc_mm(n) < spec_micro_minutes(set))
}

/// What a daytime answer says when it was computed from the clock reading
/// `n`.
#[verifier::opaque]
pub open spec fn spec_is_day_of_clock(n: crate::clock::ClockNow, lat: int, lon: int, sr: int,
    ss: int, v: bool) -> bool {
    let jd = spec_julian_micro(n.year as int, n.month as int, n.day as int);
    v == (spec_micro_minutes(spec_sunrise(jd, lat, lon)) + sr * 1_000_000 <= spec_clock_utc_mm(n)
        < spec_micro_minutes(spec_sunset(jd, lat, lon)) + ss * 1_000_000)
}

/// What a next-transition answer says when it was computed from the clock
/// reading `n`.
#[verifier::opaque]
pub open spec fn spec_transition_of_clock(n: crate::clock::ClockNow, lat: int, lon: int, sr: int,
    ss: int, out: Seq<char>, to_day: bool) -> bool {
    let st = spec_next_transition(
        spec_julian_micro(n.year as int, n.month as int, n.day as int),
        lat,
        lon,
        sr,
        ss,
        spec_clock_utc_mm(n),
        n.tz_offset_minutes as int,
    );
    out == st.0 && to_day == st.1
}

/// Solar times for today at the given coordinates, read from the machine
/// clock. Out-of-range coordinates are refused with the location error;
/// the only other failure is a clock outside the calendar window. Every
/// success is the specified result for some well-formed clock reading.
pub fn solar_get_times(latitude_udeg: i64, longitude_udeg: i64, timezone: String) -> (r: Result<
    SolarTimes,
    String,
>)
    ensures
        !(-90_000_000 <= latitude_udeg <= 90_000_000 && -180_000_000 <= longitude_udeg
            <= 180_000_000) ==> (r matches Err(e) && e@ == "location out of range"@),
        (r is Err && r->Err_0@ == "location out of range"@) ==> !(-90_000_000 <= latitude_udeg
            <= 90_000_000 && -180_000_000 <= longitude_udeg <= 180_000_000),
        r matches Err(e) ==> e@ == "location out of range"@ || e@
            == "clock outside the supported calendar range"@,
        r is Ok ==> -90_000_000 <= latitude_udeg <= 90_000_000 && -180_000_000
            <= longitude_udeg <= 180_000_000,
        r matches Ok(t) ==> 0 <= t.day_length <= 1440,
        r is Ok ==> exists|n: crate::clock::ClockNow|
            n.wf() && #[trigger] spec_times_of_clock(
                n,
                latitude_udeg as int,
                longitude_udeg as int,
                r->Ok_0,
            ),
{
    let location = Location { latitude_udeg, longitude_udeg, timezone };
    if !(-90_000_000 <= latitude_udeg && latitude_udeg <= 90_000_000 && -180_000_000
        <= longitude_udeg && longitude_udeg <= 180_000_000) {
        return Err(String::from_str("location out of range"));
    }
    let n = crate::clock::now_local();
    if n.year < 1583 || n.year > 9999 {
        let e = String::from_str("clock outside the supported calendar range");
        proof {
            reveal_strlit("clock outside the supported calendar range");
            reveal_strlit("location out of range");
            assert(e@.len() == 42);
            assert("location out of range"@.len() == 21);
            assert(e@ != "location out of range"@);
        }
        return Err(e);
    }
    let today = CivilDate { year: n.year, month: n.month, day: n.day };
    let now_mm: i64 = clock_utc_mm(&n);
    let t = get_solar_times(&today, &location, now_mm, n.tz_offset_minutes);
    let r: Result<SolarTimes, String> = Ok(t);
    proof {
        assert(n.wf());
        assert(spec_times_of_clock(n, latitude_udeg as int, longitude_udeg as int, r->Ok_0)) by {
            reveal(spec_times_of_clock);
        }
    }
    r
}

/// Whether it is daytime right now at the given coordinates, with the two
/// offsets in minutes applied to sunrise and sunset. Out-of-range arguments
/// are refused with the argument error; the only other failure is a clock
/// outside the calendar window. Every success is the specified answer for
/// some well-formed clock reading.
pub fn solar_is_day(latitude_udeg: i64, longitude_udeg: i64, sunrise_offset: i64,
    sunset_offset: i64) -> (r: Result<bool, String>)
    ensures
        !(-90_000_000 <= latitude_udeg <= 90_000_000 && -180_000_000 <= longitude_udeg
            <= 180_000_000 && -1_000_000_000 <= sunrise_offset <= 1_000_000_000
            && -1_000_000_000 <= sunset_offset <= 1_000_000_000) ==> (r matches Err(e) && e@
            == "argument out of range"@),
        (r is Err && r->Err_0@ == "argument out of range"@) ==> !(-90_000_000 <= latitude_udeg
            <= 90_000_000 && -180_000_000 <= longitude_udeg <= 180_000_000 && -1_000_000_000
            <= sunrise_offset <= 1_000_000_000 && -1_000_000_000 <= sunset_offset
            <= 1_000_000_000),
        r matches Err(e) ==> e@ == "argument out of range"@ || e@
            == "clock outside the supported calendar range"@,
        r is Ok ==> -90_000_000 <= latitude_udeg <= 90_000_000 && -180_000_000
            <= longitude_udeg <= 180_000_000,
        r is Ok ==> exists|n: crate::clock::ClockNow|
            n.wf() && #[trigger] spec_is_day_of_clock(
                n,
                latitude_udeg as int,
                longitude_udeg as int,
                sunrise_offset as int,
                sunset_offset as int,
                r->Ok_0,
            ),
{
    if !(-90_000_000 <= latitude_udeg && latitude_udeg <= 90_000_000 && -180_000_000
        <= longitude_udeg && longitude_udeg <= 180_000_000 && -1_000_000_000 <= sunrise_offset
        && sunrise_offset <= 1_000_000_000 && -1_000_000_000 <= sunset_offset && sunset_offset
        <= 1_000_000_000) {
        return Err(String::from_str("argument out of range"));
    }
    let location = Location { latitude_udeg, longitude_udeg, timezone: String::new() };
    let n = crate::clock::now_local();
    if n.year < 1583 || n.year > 9999 {
        let e = String::from_str("clock outside the supported calendar range");
        proof {
            reveal_strlit("clock outside the supported calendar range");
            reveal_strlit("argument out of range");
            assert(e@.len() == 42);
            assert("argument out of range"@.len() == 21);
            assert(e@ != "argument out of range"@);
        }
        return Err(e);
    }
    let today = CivilDate { year: n.year, month: n.month, day: n.day };
    let now_mm: i64 = clock_utc_mm(&n);
    let v = is_daytime(&location, sunrise_offset, sunset_offset, &today, now_mm);
    let r: Result<bool, String> = Ok(v);
    proof {
        assert(n.wf());
        assert(spec_is_day_of_clock(
            n,
            latitude_udeg as int,
            longitude_udeg as int,
            sunrise_offset as int,
            sunset_offset as int,
            r->Ok_0,
        )) by {
            reveal(spec_is_day_of_clock);
        }
    }
    r
}

/// The next day/night transition at the given coordinates, as an ISO
/// timestamp and whether it switches to day. Out-of-range arguments are
/// refused with the argument error; the only other failure is a clock
/// outside the calendar window. Every success is the specified answer for
/// some well-formed clock reading.
pub fn solar_get_next_transition(latitude_udeg: i64, longitude_udeg: i64, sunrise_offset: i64,
    sunset_offset: i64) -> (r: Result<(String, bool), String>)
    ensures
        !(-90_000_000 <= latitude_udeg <= 90_000_000 && -180_000_000 <= longitude_udeg
            <= 180_000_000 && -1440 <= sunrise_offset <= 1440 && -1440 <= sunset_offset
            <= 1440) ==> (r matches Err(e) && e@ == "argument out of range"@),
        (r is Err && r->Err_0@ == "argument out of range"@) ==> !(-90_000_000 <= latitude_udeg
            <= 90_000_000 && -180_000_000 <= longitude_udeg <= 180_000_000 && -1440
            <= sunrise_offset <= 1440 && -1440 <= sunset_offset <= 1440),
        r matches Err(e) ==> e@ == "argument out of range"@ || e@
            == "clock outside the supported calendar range"@,
        r is Ok ==> -90_000_000 <= latitude_udeg <= 90_000_000 && -180_000_000
            <= longitude_udeg <= 180_000_000,
        r is Ok ==> exists|n: crate::clock::ClockNow|
            n.wf() && #[trigger] spec_transition_of_clock(
                n,
                latitude_udeg as int,
                longitude_udeg as int,
                sunrise_offset as int,
                sunset_offset as int,
                r->Ok_0.0@,
                r->Ok_0.1,
            ),
{
    if !(-90_000_000 <= latitude_udeg && latitude_udeg <= 90_000_000 && -180_000_000
        <= longitude_udeg && longitude_udeg <= 180_000_000 && -1440 <= sunrise_offset
        && sunrise_offset <= 1440 && -1440 <= sunset_offset && sunset_offset <= 1440) {
        return Err(String::from_str("argument out of range"));
    }
    let location = Location { latitude_udeg, longitude_udeg, timezone: String::new() };
    let n = crate::clock::now_local();
    if n.year < 1583 || n.year > 9999 {
        let e = String::from_str("clock outside the supported calendar range");
        proof {
            reveal_strlit("clock outside the supported calendar range");
            reveal_strlit("argument out of range");
            assert(e@.len() == 42);
            assert("argument out of range"@.len() == 21);
            assert(e@ != "argument out of range"@);
        }
        return Err(e);
    }
    let today = CivilDate { year: n.year, month: n.month, day: n.day };
    let now_mm: i64 = clock_utc_mm(&n);
    let p = get_next_transition(
        &location,
        sunrise_offset,
        sunset_offset,
        &today,
        now_mm,
        n.tz_offset_minutes,
    );
    let r: Result<(String, bool), String> = Ok(p);
    proof {
        assert(n.wf());
        assert(spec_transition_of_clock(
            n,
            latitude_udeg as int,
            longitude_udeg as int,
            sunrise_offset as int,
            sunset_offset as int,
            r->Ok_0.0@,
            r->Ok_0.1,
        )) by {
            reveal(spec_transition_of_clock);
        }
    }
    r
}

} // verus!
