//! Wind and heading geometry.
//!
//! Angles are measured in microdegrees (1 degree = 1_000_000 µdeg), speeds
//! in mm/s, and dimensionless ratios in parts per million (ppm).  The sine
//! is Bhaskara's rational approximation, evaluated exactly over the
//! integers, so every function here is a total, deterministic function of
//! its arguments.
//!
//! Sign convention: `wind_from` is the meteorological bearing the wind is
//! coming FROM; the along-path component is positive for a tailwind and
//! negative for a headwind.

use vstd::arithmetic::div_mod::{
    lemma_div_is_ordered, lemma_fundamental_div_mod_converse_mod, lemma_mod_multiples_basic,
};
use vstd::prelude::*;

verus! {

/// Microdegrees in a full turn.
pub const FULL_TURN_UDEG: i64 = 360_000_000;

/// Microdegrees in a half turn.
pub const HALF_TURN_UDEG: i64 = 180_000_000;

/// Microdegrees in a quarter turn.
pub const QUARTER_TURN_UDEG: i64 = 90_000_000;

/// One, in parts per million.
pub const UNIT_PPM: i64 = 1_000_000;

/// Smallest relative airspeed, in mm/s, handed to the drag model: the cubic
/// drag term must never degenerate to zero or run negative.
pub const V_REL_FLOOR_MMS: i64 = 100;

/// Largest angle magnitude, in µdeg, the geometry functions accept.
pub const MAX_ANGLE_UDEG: i64 = 2_000_000_000_000;

/// Largest wind-speed magnitude, in mm/s, the geometry functions accept.
pub const MAX_WIND_MMS: i64 = 1_000_000_000;

/// An angle folded into [0°, 360°), as Euclidean remainder.
pub open spec fn wrap360_spec(x: int) -> int {
    x % 360_000_000
}

/// Bhaskara's sine on [0°, 180°]: sin(d°) ≈ 4d(180−d) / (40500 − d(180−d)),
/// carried out in µdeg and ppm.  Exact at 0°, 90° and 180°.
pub open spec fn half_sine_pm_spec(d: int) -> int {
    let u = d * (180_000_000 - d);
    (4 * u * 1_000_000) / (40_500_000_000_000_000 - u)
}

/// Sine over a full turn, input in [0°, 360°) µdeg, result in ppm.
pub open spec fn sine_pm_spec(d: int) -> int {
    if d <= 180_000_000 {
        half_sine_pm_spec(d)
    } else {
        -half_sine_pm_spec(d - 180_000_000)
    }
}

/// Cosine over a full turn, input in [0°, 360°) µdeg, result in ppm.
pub open spec fn cosine_pm_spec(d: int) -> int {
    sine_pm_spec(wrap360_spec(d + 90_000_000))
}

/// The bearing the wind blows TOWARDS, from the bearing it comes FROM.
pub open spec fn wind_to_bearing_spec(wind_from: int) -> int {
    wrap360_spec(wind_from + 180_000_000)
}

/// Product scaled down by one ppm unit, truncated towards zero.
pub open spec fn scale_pm_spec(w: int, c: int) -> int {
    div_trunc_spec(w * c, 1_000_000)
}

/// Along-path wind component in mm/s: wind speed (clamped to ≥ 0) times the
/// cosine of the angle between the travel heading and the wind-TO bearing.
/// Positive = tailwind.
pub open spec fn along_wind_spec(heading: int, wind_from: int, wind_mms: int) -> int {
    let w = if wind_mms >= 0 { wind_mms } else { 0 };
    let delta = wrap360_spec(heading - wind_to_bearing_spec(wind_from));
    scale_pm_spec(w, cosine_pm_spec(delta))
}

/// Ground speed minus an along-path wind component, floored at
/// `V_REL_FLOOR_MMS`.
pub open spec fn airspeed_floor_spec(v_mms: int, along: int) -> int {
    let d = v_mms - along;
    if d >= 100 {
        d
    } else {
        100
    }
}

/// Relative airspeed in mm/s: ground speed minus the along-path wind,
/// floored at `V_REL_FLOOR_MMS`.
pub open spec fn relative_airspeed_spec(v_mms: int, heading: int, wind_from: int, wind_mms: int) -> int {
    airspeed_floor_spec(v_mms, along_wind_spec(heading, wind_from, wind_mms))
}

/// Quotient truncated towards zero (the remainder keeps the sign of `a`),
/// over a positive divisor.
pub open spec fn div_trunc_spec(a: int, b: int) -> int {
    if a >= 0 {
        a / b
    } else {
        -((-a) / b)
    }
}

/// The absolute value.
pub open spec fn abs_spec(x: int) -> int {
    if x >= 0 {
        x
    } else {
        -x
    }
}

/// Clamp `x` into [lo, hi].
pub open spec fn clamp_spec(x: int, lo: int, hi: int) -> int {
    if x < lo {
        lo
    } else if x > hi {
        hi
    } else {
        x
    }
}

/// Rational arctangent on a ratio in [0, 1] ppm: ≈ 45z + 15.64·z(1−z)
/// degrees, in µdeg.  Exact at 0 and 1; within 0.25° in between.
pub open spec fn atan_ratio_udeg_spec(z_pm: int) -> int {
    45 * z_pm + (15_640_000 * z_pm * (1_000_000 - z_pm)) / 1_000_000_000_000
}

/// First-quadrant arctangent of `ay / ax` (both ≥ 0, not both 0), in µdeg.
pub open spec fn atan2_core_spec(ay: int, ax: int) -> int {
    if ax >= ay {
        atan_ratio_udeg_spec((ay * 1_000_000) / ax)
    } else {
        90_000_000 - atan_ratio_udeg_spec((ax * 1_000_000) / ay)
    }
}

/// Bearing-style arctangent: the angle in [0°, 360°) µdeg measured from
/// the `north` axis towards the `east` axis.  Zero when both are zero.
pub open spec fn atan2_bearing_spec(east: int, north: int) -> int {
    if east == 0 && north == 0 {
        0
    } else {
        let base = atan2_core_spec(abs_spec(east), abs_spec(north));
        if east >= 0 && north >= 0 {
            base
        } else if east >= 0 {
            180_000_000 - base
        } else if north < 0 {
            180_000_000 + base
        } else if base == 0 {
            0
        } else {
            360_000_000 - base
        }
    }
}

/// Initial bearing in µdeg from fix 1 to fix 2, on the local tangent
/// plane: east offset `Δλ·cos(φ_mid)` against north offset `Δφ`.
/// Consecutive ride fixes lie close together, where this agrees with the
/// great-circle initial bearing.
pub open spec fn bearing_spec(lat1: int, lon1: int, lat2: int, lon2: int) -> int {
    let dlon = fold180_spec(lon2 - lon1);
    let lat_mid = div_trunc_spec(lat1 + lat2, 2);
    let east = scale_pm_spec(dlon, cosine_pm_spec(wrap360_spec(lat_mid)));
    let north = lat2 - lat1;
    atan2_bearing_spec(east, north)
}

/// An angle folded into (−180°, 180°].
pub open spec fn fold180_spec(x: int) -> int {
    let w = wrap360_spec(x);
    if w > 180_000_000 {
        w - 360_000_000
    } else {
        w
    }
}

/// Fold an angle into [0°, 360°).
pub fn wrap360(x: i64) -> (r: i64)
    requires
        x > i64::MIN,
    ensures
        r == wrap360_spec(x as int),
        0 <= r < 360_000_000,
{
    if x >= 0 {
        x % 360_000_000
    } else {
        let m = (-x) % 360_000_000;
        proof {
            let d = 360_000_000int;
            let q = (-x) as int / d;
            assert((-x) as int == q * d + m) by {
                vstd::arithmetic::div_mod::lemma_fundamental_div_mod((-x) as int, d);
            }
            if m == 0 {
                assert(x as int == (-q) * d) by (nonlinear_arith)
                    requires
                        (-x) as int == q * d + m,
                        m == 0,
                ;
                lemma_mod_multiples_basic(-q, d);
            } else {
                assert(x as int == (-q - 1) * d + (d - m)) by (nonlinear_arith)
                    requires
                        (-x) as int == q * d + m,
                ;
                lemma_fundamental_div_mod_converse_mod(x as int, d, -q - 1, d - m);
            }
        }
        if m == 0 {
            0
        } else {
            360_000_000 - m
        }
    }
}

/// Fold an angle into [0°, 360°); `wrap360` under its compatibility name.
pub fn cg_wrap360(x: i64) -> (r: i64)
    requires
        x > i64::MIN,
    ensures
        r == wrap360_spec(x as int),
        0 <= r < 360_000_000,
{
    wrap360(x)
}

/// Bhaskara's sine on [0°, 180°], result in ppm.
fn half_sine_pm(d: i64) -> (r: i64)
    requires
        0 <= d <= 180_000_000,
    ensures
        r == half_sine_pm_spec(d as int),
        0 <= r <= 1_000_000,
{
    proof {
        assert(d * (180_000_000 - d) <= 8_100_000_000_000_000int) by (nonlinear_arith)
            requires
                0 <= d <= 180_000_000,
        ;
        assert(d * (180_000_000 - d) >= 0) by (nonlinear_arith)
            requires
                0 <= d <= 180_000_000,
        ;
    }
    let u: u64 = (d as u64) * ((180_000_000 - d) as u64);
    let num: u128 = 4u128 * (u as u128) * 1_000_000u128;
    let den: u64 = 40_500_000_000_000_000u64 - u;
    let r: u128 = num / (den as u128);
    proof {
        assert(num <= 1_000_000 * (den as int)) by {
            assert(4 * (u as int) * 1_000_000 + 1_000_000 * (u as int) <= 1_000_000
                * 40_500_000_000_000_000int);
        }
        lemma_div_is_ordered(num as int, 1_000_000 * (den as int), den as int);
        assert(1_000_000 * (den as int) / (den as int) == 1_000_000) by (nonlinear_arith)
            requires
                den as int > 0,
        ;
    }
    r as i64
}

/// Sine of an angle in [0°, 360°), result in ppm.
fn sine_pm(d: i64) -> (r: i64)
    requires
        0 <= d < 360_000_000,
    ensures
        r == sine_pm_spec(d as int),
        -1_000_000 <= r <= 1_000_000,
{
    if d <= 180_000_000 {
        half_sine_pm(d)
    } else {
        -half_sine_pm(d - 180_000_000)
    }
}

/// Cosine of an angle in [0°, 360°), result in ppm.
pub(crate) fn cosine_pm(d: i64) -> (r: i64)
    requires
        0 <= d < 360_000_000,
    ensures
        r == cosine_pm_spec(d as int),
        -1_000_000 <= r <= 1_000_000,
{
    let shifted = if d < 270_000_000 {
        d + 90_000_000
    } else {
        d - 270_000_000
    };
    proof {
        if d < 270_000_000 {
            vstd::arithmetic::div_mod::lemma_small_mod((d + 90_000_000) as nat, 360_000_000nat);
        } else {
            lemma_fundamental_div_mod_converse_mod((d + 90_000_000) as int, 360_000_000int, 1int, (d
                - 270_000_000) as int);
        }
    }
    sine_pm(shifted)
}

/// A non-negative value scaled by a ppm ratio in [0, 1_000_000], truncated.
fn scale_pm_mag(w: i64, m: i64) -> (r: i64)
    requires
        0 <= w <= MAX_WIND_MMS,
        0 <= m <= 1_000_000,
    ensures
        r == (w * m) / 1_000_000,
        0 <= r <= w,
{
    proof {
        assert(0 <= w * m <= w * 1_000_000) by (nonlinear_arith)
            requires
                0 <= w,
                0 <= m <= 1_000_000,
        ;
        assert(w * 1_000_000 <= 1_000_000_000_000_000int) by (nonlinear_arith)
            requires
                w <= 1_000_000_000,
        ;
        lemma_div_is_ordered(w * m, w * 1_000_000, 1_000_000int);
        assert(w * 1_000_000 / 1_000_000 == w) by (nonlinear_arith);
        vstd::arithmetic::div_mod::lemma_div_pos_is_pos(w * m, 1_000_000int);
    }
    let wide: u128 = (w as u128) * (m as u128) / 1_000_000;
    wide as i64
}

/// Along-path wind component (positive = tailwind), in mm/s.
///
/// `heading_udeg` is the direction of travel, `wind_from_udeg` the
/// meteorological direction the wind comes from, both in µdeg;
/// `wind_mms` is the wind speed in mm/s, clamped to ≥ 0.
pub fn cg_along_wind_component(heading_udeg: i64, wind_from_udeg: i64, wind_mms: i64) -> (r: i64)
    requires
        -MAX_ANGLE_UDEG <= heading_udeg <= MAX_ANGLE_UDEG,
        -MAX_ANGLE_UDEG <= wind_from_udeg <= MAX_ANGLE_UDEG,
        -MAX_WIND_MMS <= wind_mms <= MAX_WIND_MMS,
    ensures
        r == along_wind_spec(heading_udeg as int, wind_from_udeg as int, wind_mms as int),
        ({
            let w = if wind_mms >= 0 {
                wind_mms as int
            } else {
                0
            };
            -w <= r <= w
        }),
{
    let w = if wind_mms >= 0 {
        wind_mms
    } else {
        0
    };
    let wind_to = wrap360(wind_from_udeg + 180_000_000);
    let delta = wrap360(heading_udeg - wind_to);
    let c = cosine_pm(delta);
    if c >= 0 {
        proof {
            assert(w * c >= 0) by (nonlinear_arith)
                requires
                    w >= 0,
                    c >= 0,
            ;
        }
        scale_pm_mag(w, c)
    } else {
        proof {
            assert(w * -c >= 0 && w * c == -(w * -c)) by (nonlinear_arith)
                requires
                    w >= 0,
                    c < 0,
            ;
        }
        -scale_pm_mag(w, -c)
    }
}

/// Relative airspeed in mm/s at ground speed `v_mms`: the ground speed minus
/// the along-path wind component, floored at `V_REL_FLOOR_MMS`.
pub fn cg_relative_air_speed(v_mms: i64, heading_udeg: i64, wind_from_udeg: i64, wind_mms: i64) -> (r:
    i64)
    requires
        -MAX_WIND_MMS <= v_mms <= MAX_WIND_MMS,
        -MAX_ANGLE_UDEG <= heading_udeg <= MAX_ANGLE_UDEG,
        -MAX_ANGLE_UDEG <= wind_from_udeg <= MAX_ANGLE_UDEG,
        -MAX_WIND_MMS <= wind_mms <= MAX_WIND_MMS,
    ensures
        r == relative_airspeed_spec(
            v_mms as int,
            heading_udeg as int,
            wind_from_udeg as int,
            wind_mms as int,
        ),
        r >= V_REL_FLOOR_MMS,
{
    let along = cg_along_wind_component(heading_udeg, wind_from_udeg, wind_mms);
    let d = v_mms - along;
    if d >= 100 {
        d
    } else {
        100
    }
}

/// Quotient truncated towards zero, over a positive divisor.
pub fn div_trunc(a: i64, b: i64) -> (r: i64)
    requires
        a > i64::MIN,
        b > 0,
    ensures
        r == div_trunc_spec(a as int, b as int),
        abs_spec(r as int) <= abs_spec(a as int),
{
    proof {
        if a >= 0 {
            vstd::arithmetic::div_mod::lemma_div_pos_is_pos(a as int, b as int);
            lemma_div_is_ordered(a as int, a as int, b as int);
            vstd::arithmetic::div_mod::lemma_div_nonincreasing(a as int, b as int);
        } else {
            vstd::arithmetic::div_mod::lemma_div_pos_is_pos(-a as int, b as int);
            vstd::arithmetic::div_mod::lemma_div_nonincreasing(-a as int, b as int);
        }
    }
    if a >= 0 {
        let q = (a as u64) / (b as u64);
        q as i64
    } else {
        let q = ((-a) as u64) / (b as u64);
        -(q as i64)
    }
}

/// Fold an angle into (−180°, 180°].
pub fn fold180(x: i64) -> (r: i64)
    requires
        x > i64::MIN,
    ensures
        r == fold180_spec(x as int),
        -180_000_000 < r <= 180_000_000,
{
    let w = wrap360(x);
    if w > 180_000_000 {
        w - 360_000_000
    } else {
        w
    }
}

/// Rational arctangent on a ratio in [0, 1] ppm, result in µdeg.
fn atan_ratio_udeg(z_pm: i64) -> (r: i64)
    requires
        0 <= z_pm <= 1_000_000,
    ensures
        r == atan_ratio_udeg_spec(z_pm as int),
        0 <= r <= 90_000_000,
{
    proof {
        assert(0 <= 15_640_000 * (z_pm as int) * (1_000_000 - z_pm as int)
            <= 3_910_000_000_000_000_000int) by (nonlinear_arith)
            requires
                0 <= z_pm <= 1_000_000,
        ;
        lemma_div_is_ordered(
            15_640_000 * (z_pm as int) * (1_000_000 - z_pm as int),
            3_910_000_000_000_000_000int,
            1_000_000_000_000int,
        );
        vstd::arithmetic::div_mod::lemma_div_pos_is_pos(
            15_640_000 * (z_pm as int) * (1_000_000 - z_pm as int),
            1_000_000_000_000int,
        );
        vstd::arithmetic::div_mod::lemma_div_of0(1_000_000_000_000int);
    }
    let curve: u64 = 15_640_000u64 * (z_pm as u64) * ((1_000_000 - z_pm) as u64) / 1_000_000_000_000;
    45 * z_pm + (curve as i64)
}

/// First-quadrant arctangent of `ay / ax` (not both 0), in µdeg.
fn atan2_core(ay: i64, ax: i64) -> (r: i64)
    requires
        0 <= ay <= 4_000_000_000_000,
        0 <= ax <= 4_000_000_000_000,
        ay > 0 || ax > 0,
    ensures
        r == atan2_core_spec(ay as int, ax as int),
        0 <= r <= 90_000_000,
{
    if ax >= ay {
        proof {
            assert(ay * 1_000_000 <= ax * 1_000_000) by (nonlinear_arith)
                requires
                    ay <= ax,
            ;
            lemma_div_is_ordered(ay as int * 1_000_000, ax as int * 1_000_000, ax as int);
            assert(ax as int * 1_000_000 / (ax as int) == 1_000_000) by (nonlinear_arith)
                requires
                    ax > 0,
            ;
            vstd::arithmetic::div_mod::lemma_div_pos_is_pos(ay as int * 1_000_000, ax as int);
        }
        let z = (ay as u64) * 1_000_000 / (ax as u64);
        atan_ratio_udeg(z as i64)
    } else {
        proof {
            assert(ax * 1_000_000 <= ay * 1_000_000) by (nonlinear_arith)
                requires
                    ax <= ay,
            ;
            lemma_div_is_ordered(ax as int * 1_000_000, ay as int * 1_000_000, ay as int);
            assert(ay as int * 1_000_000 / (ay as int) == 1_000_000) by (nonlinear_arith)
                requires
                    ay > 0,
            ;
            vstd::arithmetic::div_mod::lemma_div_pos_is_pos(ax as int * 1_000_000, ay as int);
        }
        let z = (ax as u64) * 1_000_000 / (ay as u64);
        90_000_000 - atan_ratio_udeg(z as i64)
    }
}

/// Bearing-style arctangent: the angle in [0°, 360°) µdeg measured from
/// the `north` axis towards the `east` axis.
pub fn atan2_bearing(east: i64, north: i64) -> (r: i64)
    requires
        -4_000_000_000_000 <= east <= 4_000_000_000_000,
        -4_000_000_000_000 <= north <= 4_000_000_000_000,
    ensures
        r == atan2_bearing_spec(east as int, north as int),
        0 <= r < 360_000_000,
{
    if east == 0 && north == 0 {
        return 0;
    }
    let ae = if east >= 0 {
        east
    } else {
        -east
    };
    let an = if north >= 0 {
        north
    } else {
        -north
    };
    let base = atan2_core(ae, an);
    if east >= 0 && north >= 0 {
        base
    } else if east >= 0 {
        180_000_000 - base
    } else if north < 0 {
        180_000_000 + base
    } else if base == 0 {
        0
    } else {
        360_000_000 - base
    }
}

/// Initial travel bearing in µdeg from GPS fix 1 to GPS fix 2.
///
/// Evaluated on the local tangent plane — east offset `Δλ·cos(φ_mid)`
/// against north offset `Δφ` — which for the close-together fixes of a
/// recorded ride agrees with the great-circle initial bearing.
pub fn initial_bearing(lat1: i64, lon1: i64, lat2: i64, lon2: i64) -> (r: i64)
    requires
        -90_000_000 <= lat1 <= 90_000_000,
        -180_000_000 <= lon1 <= 180_000_000,
        -90_000_000 <= lat2 <= 90_000_000,
        -180_000_000 <= lon2 <= 180_000_000,
    ensures
        r == bearing_spec(lat1 as int, lon1 as int, lat2 as int, lon2 as int),
        0 <= r < 360_000_000,
{
    let dlon = fold180(lon2 - lon1);
    let lat_mid = div_trunc(lat1 + lat2, 2);
    let c = cosine_pm(wrap360(lat_mid));
    proof {
        assert(-180_000_000_000_000int <= dlon * c <= 180_000_000_000_000int) by (nonlinear_arith)
            requires
                -180_000_000 <= dlon <= 180_000_000,
                -1_000_000 <= c <= 1_000_000,
        ;
    }
    let east = div_trunc(dlon * c, 1_000_000);
    let north = lat2 - lat1;
    atan2_bearing(east, north)
}

/// Relative airspeed under its apparent-wind name; same contract as
/// `cg_relative_air_speed`.
pub fn apparent_air_speed(v_mms: i64, heading_udeg: i64, wind_from_udeg: i64, wind_mms: i64) -> (r:
    i64)
    requires
        -MAX_WIND_MMS <= v_mms <= MAX_WIND_MMS,
        -MAX_ANGLE_UDEG <= heading_udeg <= MAX_ANGLE_UDEG,
        -MAX_ANGLE_UDEG <= wind_from_udeg <= MAX_ANGLE_UDEG,
        -MAX_WIND_MMS <= wind_mms <= MAX_WIND_MMS,
    ensures
        r == relative_airspeed_spec(
            v_mms as int,
            heading_udeg as int,
            wind_from_udeg as int,
            wind_mms as int,
        ),
        r >= V_REL_FLOOR_MMS,
{
    cg_relative_air_speed(v_mms, heading_udeg, wind_from_udeg, wind_mms)
}

} // verus!
