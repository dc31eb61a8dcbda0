//! The power decomposition engine and the default-coefficient estimator.
//!
//! Per telemetry sample the engine charges the rider four non-negative
//! power terms — rolling resistance, aerodynamic drag, uphill gravity and
//! kinetic acceleration — and sums them.  Only work the rider must pedal
//! for is charged: downhill assistance and deceleration are clamped to
//! zero rather than credited back.
//!
//! Units: mass in mg, speed in mm/s, time in ms, power in mW, angles in
//! µdeg; Crr, CdA, air density and slope are parts-per-million ratios.

use crate::geometry::{
    abs_spec, along_wind_spec, cg_along_wind_component, clamp_spec, div_trunc, div_trunc_spec,
    relative_airspeed_spec,
};
use crate::labels::{eq_ignore_case, label_matches};
use crate::models::{Profile, Sample, Weather};
use crate::smoothing::{smooth_altitude, smoothed_alt_spec};
use vstd::arithmetic::div_mod::{lemma_div_is_ordered, lemma_div_pos_is_pos};
use vstd::arithmetic::mul::{lemma_mul_nonnegative, lemma_mul_upper_bound};
use vstd::prelude::*;

verus! {

/// Standard gravity, in µ(m/s²).
pub const G_UPM: i64 = 9_806_650;

/// Sea-level air density used for indoor sessions, in ppm of kg/m³.
pub const INDOOR_RHO_PPM: i64 = 1_225_000;

/// System mass assumed when the profile has none: 75 kg, in mg.
pub const DEFAULT_MASS_MG: i64 = 75_000_000;

/// Rolling resistance assumed outdoors when the profile has none.
pub const DEFAULT_CRR_PPM: i64 = 5_000;

/// Rolling resistance assumed indoors when the profile has none.
pub const DEFAULT_INDOOR_CRR_PPM: i64 = 4_000;

/// CdA assumed when neither coefficient nor bike type is known.
pub const DEFAULT_CDA_PPM: i64 = 300_000;

/// No per-sample power estimate can exceed this, in mW.
pub const MAX_POWER_MW: i64 = 50_000_000_000_000;

/// The view of an optional borrowed label.
pub open spec fn opt_label_view(s: Option<&str>) -> Option<Seq<char>> {
    match s {
        Some(t) => Some(t@),
        None => None,
    }
}

/// The CdA default for a bike-type label, in ppm of m²: lowest for
/// time-trial machines, highest for upright city bikes, 0.30 m² when the
/// label is missing or unknown.
pub open spec fn cda_for_spec(bt: Option<Seq<char>>) -> int {
    match bt {
        None => 300_000,
        Some(s) => {
            if label_matches(s, "tt"@) || label_matches(s, "tri"@) || label_matches(
                s,
                "time_trial"@,
            ) {
                210_000
            } else if label_matches(s, "road"@) || label_matches(s, "racer"@) {
                250_000
            } else if label_matches(s, "gravel"@) {
                280_000
            } else if label_matches(s, "mtb"@) {
                350_000
            } else if label_matches(s, "city"@) || label_matches(s, "commuter"@) {
                400_000
            } else {
                300_000
            }
        },
    }
}

/// The CdA default for a bike-type label, in ppm of m².
fn cda_for(bike_type: Option<&str>) -> (r: i64)
    ensures
        r == cda_for_spec(opt_label_view(bike_type)),
        200_000 <= r <= 400_000,
{
    match bike_type {
        None => 300_000,
        Some(s) => {
            if eq_ignore_case(s, "tt") || eq_ignore_case(s, "tri") || eq_ignore_case(
                s,
                "time_trial",
            ) {
                210_000
            } else if eq_ignore_case(s, "road") || eq_ignore_case(s, "racer") {
                250_000
            } else if eq_ignore_case(s, "gravel") {
                280_000
            } else if eq_ignore_case(s, "mtb") {
                350_000
            } else if eq_ignore_case(s, "city") || eq_ignore_case(s, "commuter") {
                400_000
            } else {
                300_000
            }
        },
    }
}

/// Air density from temperature and pressure by the ideal-gas relation,
/// clamped into the plausible band 0.9–1.4 kg/m³, in ppm.
pub open spec fn air_density_ppm_spec(temp_mc: int, pressure_mhpa: int) -> int {
    let t_k_milli = temp_mc + 273_150;
    let raw = (pressure_mhpa * 100_000_000_000) / (287_050 * t_k_milli);
    clamp_spec(raw, 900_000, 1_400_000)
}

/// Air density in ppm of kg/m³, from milli-°C and milli-hPa.
fn air_density_ppm(temp_mc: i64, pressure_mhpa: i64) -> (r: i64)
    requires
        -200_000 <= temp_mc <= 150_000,
        0 <= pressure_mhpa <= 2_000_000,
    ensures
        r == air_density_ppm_spec(temp_mc as int, pressure_mhpa as int),
        900_000 <= r <= 1_400_000,
{
    let t_k_milli = temp_mc + 273_150;
    let num: u64 = (pressure_mhpa as u64) * 100_000_000_000;
    let den: u64 = 287_050 * (t_k_milli as u64);
    proof {
        lemma_div_pos_is_pos(num as int, den as int);
        lemma_div_is_ordered(num as int, 200_000_000_000_000_000int, den as int);
    }
    let raw: u64 = num / den;
    if raw < 900_000 {
        900_000
    } else if raw > 1_400_000 {
        1_400_000
    } else {
        raw as i64
    }
}

/// Negative readings clamped to zero.
pub open spec fn clamp0_spec(x: int) -> int {
    if x < 0 {
        0
    } else {
        x
    }
}

/// The system mass the engine uses, in mg.
pub open spec fn mass_of(p: Profile) -> int {
    match p.total_weight_mg {
        Some(m) => m as int,
        None => 75_000_000,
    }
}

/// The rolling-resistance coefficient the engine uses, in ppm.
pub open spec fn crr_of(p: Profile) -> int {
    match p.crr_ppm {
        Some(c) => c as int,
        None => 5_000,
    }
}

/// The CdA the engine uses, in ppm of m²: the profile's own, or the
/// bike-type default.
pub open spec fn cda_of(p: Profile) -> int {
    match p.cda_ppm {
        Some(c) => c as int,
        None => cda_for_spec(
            match p.bike_type {
                Some(s) => Some(s@),
                None => None,
            },
        ),
    }
}

/// The air density the engine uses for a weather reading, in ppm.
pub open spec fn rho_of(w: Weather) -> int {
    air_density_ppm_spec(w.air_temp_mc as int, w.air_pressure_mhpa as int)
}

/// The clamped ground speed of sample `i`, in mm/s.
pub open spec fn v_cur_spec(s: Seq<Sample>, i: int) -> int {
    clamp0_spec(s[i].v_mms as int)
}

/// The clamped ground speed of the previous sample (the sample itself at
/// the segment start), in mm/s.
pub open spec fn v_prev_spec(s: Seq<Sample>, i: int) -> int {
    if i == 0 {
        v_cur_spec(s, 0)
    } else {
        clamp0_spec(s[i - 1].v_mms as int)
    }
}

/// The midpoint speed of the step ending at sample `i`, in mm/s.
pub open spec fn v_mid_spec(s: Seq<Sample>, i: int) -> int {
    (v_cur_spec(s, i) + v_prev_spec(s, i)) / 2
}

/// The step duration at sample `i` in ms: the timestamp difference,
/// floored at 1 ms; a neutral 1 s at the segment start.
pub open spec fn dt_ms_spec(s: Seq<Sample>, i: int) -> int {
    if i == 0 {
        1000
    } else {
        let d = abs_spec(s[i].t_ms - s[i - 1].t_ms);
        if d < 1 {
            1
        } else {
            d
        }
    }
}

/// The acceleration at sample `i`, in µ(m/s²).
pub open spec fn accel_upm_spec(s: Seq<Sample>, i: int) -> int {
    div_trunc_spec((v_cur_spec(s, i) - v_prev_spec(s, i)) * 1_000_000, dt_ms_spec(s, i))
}

/// The local grade at sample `i` in ppm, from the smoothed altitude
/// series over the distance travelled, clamped to ±0.3.
pub open spec fn slope_ppm_spec(s: Seq<Sample>, i: int) -> int {
    if i == 0 {
        0
    } else {
        let dist = (v_mid_spec(s, i) * dt_ms_spec(s, i)) / 1000;
        let dist1 = if dist < 1 {
            1
        } else {
            dist
        };
        clamp_spec(
            div_trunc_spec((smoothed_alt_spec(s, i) - smoothed_alt_spec(s, i - 1)) * 1_000_000, dist1),
            -300_000,
            300_000,
        )
    }
}

/// The travel bearing from `a` to `b`, or 0 when GPS is missing.
pub open spec fn bearing_or_zero_spec(a: Sample, b: Sample) -> int {
    match crate::models::heading_to_spec(a, b) {
        Some(h) => h,
        None => 0,
    }
}

/// The heading used for sample `i`, in µdeg: the sample's own when the
/// device delivered one, otherwise the bearing to the next GPS fix (from
/// the previous one for the last sample), otherwise north.
pub open spec fn heading_at_spec(s: Seq<Sample>, i: int) -> int {
    match s[i].heading_udeg {
        Some(h) => h as int,
        None => if i + 1 < s.len() {
            bearing_or_zero_spec(s[i], s[i + 1])
        } else if i >= 1 {
            bearing_or_zero_spec(s[i - 1], s[i])
        } else {
            0
        },
    }
}

/// The along-path wind component at sample `i`, in mm/s (+ = tailwind).
pub open spec fn wind_rel_at_spec(s: Seq<Sample>, w: Weather, i: int) -> int {
    along_wind_spec(heading_at_spec(s, i), w.wind_dir_udeg as int, w.wind_mms as int)
}

/// The relative airspeed at sample `i`, in mm/s.
pub open spec fn v_rel_at_spec(s: Seq<Sample>, w: Weather, i: int) -> int {
    relative_airspeed_spec(
        v_mid_spec(s, i),
        heading_at_spec(s, i),
        w.wind_dir_udeg as int,
        w.wind_mms as int,
    )
}

/// Rolling-resistance power in mW: mass · g · Crr · v_mid.
pub open spec fn rolling_mw_spec(mass_mg: int, crr_ppm: int, v_mid: int) -> int {
    (mass_mg * 9_806_650 * crr_ppm * v_mid) / 1_000_000_000_000_000_000
}

/// Aerodynamic-drag power in mW: ½ · ρ · CdA · v_rel³.
pub open spec fn aero_mw_spec(rho_ppm: int, cda_ppm: int, v_rel: int) -> int {
    (rho_ppm * cda_ppm * (v_rel * v_rel * v_rel)) / 2_000_000_000_000_000_000
}

/// Gravity power in mW: mass · g · v_mid · slope, clamped to ≥ 0 — only
/// uphill work is charged to the rider.
pub open spec fn gravity_mw_spec(mass_mg: int, v_mid: int, slope_ppm: int) -> int {
    if slope_ppm <= 0 {
        0
    } else {
        (mass_mg * 9_806_650 * v_mid * slope_ppm) / 1_000_000_000_000_000_000
    }
}

/// Kinetic power in mW: mass · a · v_mid, clamped to ≥ 0 — deceleration
/// is not credited back.
pub open spec fn accel_mw_spec(mass_mg: int, a_upm: int, v_mid: int) -> int {
    if a_upm <= 0 {
        0
    } else {
        (mass_mg * a_upm * v_mid) / 1_000_000_000_000
    }
}

/// The power charged to the rider at sample `i`, in mW: the sum of the
/// four non-negative terms, for the given coefficients.
pub open spec fn power_sample_spec(
    s: Seq<Sample>,
    mass_mg: int,
    crr_ppm: int,
    cda_ppm: int,
    w: Weather,
    i: int,
) -> int {
    rolling_mw_spec(mass_mg, crr_ppm, v_mid_spec(s, i)) + aero_mw_spec(
        rho_of(w),
        cda_ppm,
        v_rel_at_spec(s, w, i),
    ) + gravity_mw_spec(mass_mg, v_mid_spec(s, i), slope_ppm_spec(s, i)) + accel_mw_spec(
        mass_mg,
        accel_upm_spec(s, i),
        v_mid_spec(s, i),
    )
}

/// The power at sample `i` under a profile's own coefficients.
pub open spec fn power_sample_profile_spec(s: Seq<Sample>, p: Profile, w: Weather, i: int) -> int {
    power_sample_spec(s, mass_of(p), crr_of(p), cda_of(p), w, i)
}

/// Total system mass in mg: rider plus bike, floored at 40 kg.
pub open spec fn total_mass_spec(rider_mg: int, bike_mg: int) -> int {
    let sum = rider_mg + bike_mg;
    if sum < 40_000_000 {
        40_000_000
    } else {
        sum
    }
}

/// The tenth power, bracketed as the binary search computes it.
pub open spec fn tenth_power_spec(f: int) -> int {
    let f2 = f * f;
    let f4 = f2 * f2;
    let f8 = f4 * f4;
    f8 * f2
}

/// `f` is the integer tenth root of `x`.
pub open spec fn is_tenth_root(f: int, x: int) -> bool {
    0 <= f && tenth_power_spec(f) <= x < tenth_power_spec(f + 1)
}

/// The integer tenth root.
pub open spec fn tenth_root_spec(x: int) -> int {
    choose|f: int| is_tenth_root(f, x)
}

/// The tenth power is monotone on the non-negative integers.
proof fn lemma_tenth_power_monotone(a: int, b: int)
    requires
        0 <= a <= b,
    ensures
        0 <= tenth_power_spec(a) <= tenth_power_spec(b),
{
    lemma_mul_nonnegative(a, a);
    lemma_mul_upper_bound(a, b, a, b);
    lemma_mul_nonnegative(a * a, a * a);
    lemma_mul_upper_bound(a * a, b * b, a * a, b * b);
    lemma_mul_nonnegative((a * a) * (a * a), (a * a) * (a * a));
    lemma_mul_upper_bound(
        (a * a) * (a * a),
        (b * b) * (b * b),
        (a * a) * (a * a),
        (b * b) * (b * b),
    );
    lemma_mul_nonnegative(((a * a) * (a * a)) * ((a * a) * (a * a)), a * a);
    lemma_mul_upper_bound(
        ((a * a) * (a * a)) * ((a * a) * (a * a)),
        ((b * b) * (b * b)) * ((b * b) * (b * b)),
        a * a,
        b * b,
    );
}

/// The integer tenth root is unique.
proof fn lemma_tenth_root_unique(x: int, f: int, g: int)
    requires
        is_tenth_root(f, x),
        is_tenth_root(g, x),
    ensures
        f == g,
{
    if f < g {
        lemma_tenth_power_monotone(f + 1, g);
    }
    if g < f {
        lemma_tenth_power_monotone(g + 1, f);
    }
}

/// The tenth power of `f`, exactly.
fn tenth_power(f: u64) -> (r: u128)
    requires
        f <= 3000,
    ensures
        r == tenth_power_spec(f as int),
{
    proof {
        assert(f * f <= 9_000_000int) by (nonlinear_arith)
            requires
                f <= 3000,
        ;
    }
    let f2: u64 = f * f;
    proof {
        assert(f2 * f2 <= 81_000_000_000_000int) by (nonlinear_arith)
            requires
                f2 <= 9_000_000,
        ;
    }
    let f4: u64 = f2 * f2;
    proof {
        assert((f4 as int) * (f4 as int) <= 0x1000_0000_0000_0000_0000_0000_0000int)
            by (nonlinear_arith)
            requires
                f4 <= 81_000_000_000_000u64,
        ;
        assert((f4 as int) * (f4 as int) * (f2 as int) < 0x1_0000_0000_0000_0000_0000_0000_0000_0000int)
            by (nonlinear_arith)
            requires
                f4 <= 81_000_000_000_000u64,
                f2 <= 9_000_000u64,
        ;
    }
    let f8: u128 = (f4 as u128) * (f4 as u128);
    f8 * (f2 as u128)
}

/// The integer tenth root of `x`, by binary search.
fn tenth_root(x: u128) -> (r: u64)
    requires
        x < tenth_power_spec(2048),
    ensures
        r as int == tenth_root_spec(x as int),
        is_tenth_root(r as int, x as int),
        r < 2048,
{
    let mut lo: u64 = 0;
    let mut hi: u64 = 2048;
    proof {
        assert(tenth_power_spec(0) == 0) by (nonlinear_arith);
    }
    while hi - lo > 1
        invariant
            0 <= lo < hi <= 2048,
            tenth_power_spec(lo as int) <= x as int,
            (x as int) < tenth_power_spec(hi as int),
        decreases hi - lo,
    {
        let mid = lo + (hi - lo) / 2;
        if tenth_power(mid) <= x {
            lo = mid;
        } else {
            hi = mid;
        }
    }
    proof {
        lemma_tenth_root_unique(
            x as int,
            lo as int,
            choose|f: int| is_tenth_root(f, x as int),
        );
    }
    lo
}

/// The tire width the scaling uses: readings at or below 10 mm (or
/// non-numeric ones, which the caller maps there) fall back to the 28 mm
/// reference width.  In µm.
pub open spec fn effective_width_um(w: int) -> int {
    if w <= 10_000 {
        28_000
    } else {
        w
    }
}

/// The width scaling (28 mm / width)^0.3 in per-mille, computed as the
/// integer tenth root of the cubed per-mille ratio: narrower tires roll
/// modestly harder.  Exactly 1000 at the 28 mm reference width.
pub open spec fn width_factor_pm3(w: int) -> int {
    let q: int = 28_000_000int / effective_width_um(w);
    tenth_root_spec(q * q * q * 1_000_000_000_000_000_000_000int)
}

/// Training-grade (puncture-resistant) tire labels.
pub open spec fn is_training_label(q: Seq<char>) -> bool {
    ||| label_matches(q, "trening"@)
    ||| label_matches(q, "training"@)
    ||| label_matches(q, "trainer"@)
}

/// Race-grade tire labels.
pub open spec fn is_race_label(q: Seq<char>) -> bool {
    ||| label_matches(q, "ritt"@)
    ||| label_matches(q, "race"@)
    ||| label_matches(q, "racing"@)
}

/// The rolling-resistance multiplier for a tire-quality label, in
/// per-mille: training tires 1.2, race tires 0.85, everything else
/// (standard or unknown) neutral.
pub open spec fn quality_multiplier_pm3(q: Seq<char>) -> int {
    if is_training_label(q) {
        1200
    } else if is_race_label(q) {
        850
    } else {
        1000
    }
}

/// Round to the nearest multiple of 10 ppm (half away from zero), i.e. to
/// five decimals of the dimensionless coefficient.
pub open spec fn round_to_ten(x: int) -> int {
    ((x + 5) / 10) * 10
}

/// The estimated rolling-resistance coefficient in ppm: a 0.005 baseline
/// at the 28 mm reference width, scaled by (28/width)^0.3, multiplied by
/// the quality factor, rounded to five decimals and clamped into
/// [0.0025, 0.012].
pub open spec fn estimate_crr_spec(width_um: int, quality: Seq<char>) -> int {
    let base = 5 * width_factor_pm3(width_um);
    let adj = (base * quality_multiplier_pm3(quality)) / 1000;
    clamp_spec(round_to_ten(adj), 2_500, 12_000)
}

/// Estimate a starting rolling-resistance coefficient, in ppm, from the
/// tire width (µm) and quality label.  The baseline does not depend on
/// the bike category; the parameter is kept so that profiles can hand
/// their setup over unchanged.
pub fn estimate_crr(_bike_type: &str, tire_width_um: i64, tire_quality: &str) -> (r: i64)
    ensures
        r == estimate_crr_spec(tire_width_um as int, tire_quality@),
        2_500 <= r <= 12_000,
{
    let w_eff: i64 = if tire_width_um <= 10_000 {
        28_000
    } else {
        tire_width_um
    };
    let q: u64 = 28_000_000u64 / (w_eff as u64);
    proof {
        assert(2800int * 10_000 == 28_000_000) by (nonlinear_arith);
        vstd::arithmetic::div_mod::lemma_div_by_multiple(2800int, 10_000int);
        vstd::arithmetic::div_mod::lemma_div_is_ordered_by_denominator(
            28_000_000int,
            10_000int,
            w_eff as int,
        );
        assert(q <= 2800);
        assert(0 <= (q as int) * (q as int) <= 7_840_000int) by (nonlinear_arith)
            requires
                0 <= q <= 2800,
        ;
        assert(0 <= (q as int) * (q as int) * (q as int) <= 21_952_000_000int) by (nonlinear_arith)
            requires
                0 <= q <= 2800,
        ;
        assert(2048int * 2048 == 4_194_304) by (nonlinear_arith);
        assert(4_194_304int * 4_194_304 == 17_592_186_044_416) by (nonlinear_arith);
        assert(17_592_186_044_416int * 17_592_186_044_416
            == 309_485_009_821_345_068_724_781_056int) by (nonlinear_arith);
        assert(309_485_009_821_345_068_724_781_056int * 4_194_304
            == 1_298_074_214_633_706_907_132_624_082_305_024int) by (nonlinear_arith);
        assert(tenth_power_spec(2048) == 1_298_074_214_633_706_907_132_624_082_305_024int);
    }
    let q3: u128 = (q as u128) * (q as u128) * (q as u128);
    let target: u128 = q3 * 1_000_000_000_000_000_000_000u128;
    let f = tenth_root(target);
    let base: u64 = 5 * f;
    let mult: u64 = if eq_ignore_case(tire_quality, "trening") || eq_ignore_case(
        tire_quality,
        "training",
    ) || eq_ignore_case(tire_quality, "trainer") {
        1200
    } else if eq_ignore_case(tire_quality, "ritt") || eq_ignore_case(tire_quality, "race")
        || eq_ignore_case(tire_quality, "racing") {
        850
    } else {
        1000
    };
    let adj: u64 = base * mult / 1000;
    let rounded: u64 = ((adj + 5) / 10) * 10;
    let r: i64 = if rounded < 2_500 {
        2_500
    } else if rounded > 12_000 {
        12_000
    } else {
        rounded as i64
    };
    r
}

/// Total system mass in mg: rider plus bike, floored at 40 kg.
pub fn total_mass(rider_weight_mg: i64, bike_weight_mg: i64) -> (r: i64)
    requires
        -2_000_000_000_000 <= rider_weight_mg <= 2_000_000_000_000,
        -2_000_000_000_000 <= bike_weight_mg <= 2_000_000_000_000,
    ensures
        r == total_mass_spec(rider_weight_mg as int, bike_weight_mg as int),
        r >= 40_000_000,
{
    let sum = rider_weight_mg + bike_weight_mg;
    if sum < 40_000_000 {
        40_000_000
    } else {
        sum
    }
}

/// Rolling-resistance power in mW.
fn rolling_mw(mass_mg: i64, crr_ppm: i64, v_mid: i64) -> (r: i64)
    requires
        0 <= mass_mg <= 1_000_000_000,
        0 <= crr_ppm <= 100_000,
        0 <= v_mid <= 200_000,
    ensures
        r == rolling_mw_spec(mass_mg as int, crr_ppm as int, v_mid as int),
        0 <= r <= 200_000_000,
{
    proof {
        assert(0 <= mass_mg * 9_806_650 <= 9_806_650_000_000_000int) by (nonlinear_arith)
            requires
                0 <= mass_mg <= 1_000_000_000,
        ;
        assert(0 <= mass_mg * 9_806_650 * crr_ppm <= 980_665_000_000_000_000_000int)
            by (nonlinear_arith)
            requires
                0 <= mass_mg * 9_806_650 <= 9_806_650_000_000_000int,
                0 <= crr_ppm <= 100_000,
        ;
        assert(0 <= mass_mg * 9_806_650 * crr_ppm * v_mid
            <= 196_133_000_000_000_000_000_000_000int) by (nonlinear_arith)
            requires
                0 <= mass_mg * 9_806_650 * crr_ppm <= 980_665_000_000_000_000_000int,
                0 <= v_mid <= 200_000,
        ;
        lemma_div_pos_is_pos(
            mass_mg * 9_806_650 * crr_ppm * v_mid,
            1_000_000_000_000_000_000int,
        );
        lemma_div_is_ordered(
            mass_mg * 9_806_650 * crr_ppm * v_mid,
            196_133_000_000_000_000_000_000_000int,
            1_000_000_000_000_000_000int,
        );
    }
    let wide: u128 = (mass_mg as u128) * (G_UPM as u128) * (crr_ppm as u128) * (v_mid as u128)
        / 1_000_000_000_000_000_000;
    wide as i64
}

/// Aerodynamic-drag power in mW.
fn aero_mw(rho_ppm: i64, cda_ppm: i64, v_rel: i64) -> (r: i64)
    requires
        0 <= rho_ppm <= 1_400_000,
        0 <= cda_ppm <= 5_000_000,
        0 <= v_rel <= 400_000,
    ensures
        r == aero_mw_spec(rho_ppm as int, cda_ppm as int, v_rel as int),
        0 <= r <= 250_000_000_000,
{
    proof {
        assert(0 <= v_rel * v_rel <= 160_000_000_000int) by (nonlinear_arith)
            requires
                0 <= v_rel <= 400_000,
        ;
        assert(0 <= v_rel * v_rel * v_rel <= 64_000_000_000_000_000int) by (nonlinear_arith)
            requires
                0 <= v_rel * v_rel <= 160_000_000_000int,
                0 <= v_rel <= 400_000,
        ;
        assert(0 <= rho_ppm * cda_ppm <= 7_000_000_000_000int) by (nonlinear_arith)
            requires
                0 <= rho_ppm <= 1_400_000,
                0 <= cda_ppm <= 5_000_000,
        ;
        assert(0 <= rho_ppm * cda_ppm * (v_rel * v_rel * v_rel)
            <= 448_000_000_000_000_000_000_000_000_000int) by (nonlinear_arith)
            requires
                0 <= rho_ppm * cda_ppm <= 7_000_000_000_000int,
                0 <= v_rel * v_rel * v_rel <= 64_000_000_000_000_000int,
        ;
        lemma_div_pos_is_pos(
            rho_ppm * cda_ppm * (v_rel * v_rel * v_rel),
            2_000_000_000_000_000_000int,
        );
        lemma_div_is_ordered(
            rho_ppm * cda_ppm * (v_rel * v_rel * v_rel),
            448_000_000_000_000_000_000_000_000_000int,
            2_000_000_000_000_000_000int,
        );
    }
    let v = v_rel as u128;
    let wide: u128 = (rho_ppm as u128) * (cda_ppm as u128) * (v * v * v)
        / 2_000_000_000_000_000_000;
    wide as i64
}

/// Gravity power in mW, zero when not climbing.
fn gravity_mw(mass_mg: i64, v_mid: i64, slope_ppm: i64) -> (r: i64)
    requires
        0 <= mass_mg <= 1_000_000_000,
        0 <= v_mid <= 200_000,
        -300_000 <= slope_ppm <= 300_000,
    ensures
        r == gravity_mw_spec(mass_mg as int, v_mid as int, slope_ppm as int),
        0 <= r <= 1_000_000_000,
{
    if slope_ppm <= 0 {
        0
    } else {
        proof {
            assert(0 <= mass_mg * 9_806_650 <= 9_806_650_000_000_000int) by (nonlinear_arith)
                requires
                    0 <= mass_mg <= 1_000_000_000,
            ;
            assert(0 <= mass_mg * 9_806_650 * v_mid <= 1_961_330_000_000_000_000_000int)
                by (nonlinear_arith)
                requires
                    0 <= mass_mg * 9_806_650 <= 9_806_650_000_000_000int,
                    0 <= v_mid <= 200_000,
            ;
            assert(0 <= mass_mg * 9_806_650 * v_mid * slope_ppm
                <= 588_399_000_000_000_000_000_000_000int) by (nonlinear_arith)
                requires
                    0 <= mass_mg * 9_806_650 * v_mid <= 1_961_330_000_000_000_000_000int,
                    0 <= slope_ppm <= 300_000,
            ;
            lemma_div_pos_is_pos(
                mass_mg * 9_806_650 * v_mid * slope_ppm,
                1_000_000_000_000_000_000int,
            );
            lemma_div_is_ordered(
                mass_mg * 9_806_650 * v_mid * slope_ppm,
                588_399_000_000_000_000_000_000_000int,
                1_000_000_000_000_000_000int,
            );
        }
        let wide: u128 = (mass_mg as u128) * (G_UPM as u128) * (v_mid as u128) * (slope_ppm as u128)
            / 1_000_000_000_000_000_000;
        wide as i64
    }
}

/// Kinetic power in mW, zero when not accelerating.
fn accel_power_mw(mass_mg: i64, a_upm: i64, v_mid: i64) -> (r: i64)
    requires
        0 <= mass_mg <= 1_000_000_000,
        -200_000_000_000 <= a_upm <= 200_000_000_000,
        0 <= v_mid <= 200_000,
    ensures
        r == accel_mw_spec(mass_mg as int, a_upm as int, v_mid as int),
        0 <= r <= 40_000_000_000_000,
{
    if a_upm <= 0 {
        0
    } else {
        proof {
            assert(0 <= mass_mg * a_upm <= 200_000_000_000_000_000_000int) by (nonlinear_arith)
                requires
                    0 <= mass_mg <= 1_000_000_000,
                    0 <= a_upm <= 200_000_000_000,
            ;
            assert(0 <= mass_mg * a_upm * v_mid <= 40_000_000_000_000_000_000_000_000int)
                by (nonlinear_arith)
                requires
                    0 <= mass_mg * a_upm <= 200_000_000_000_000_000_000int,
                    0 <= v_mid <= 200_000,
            ;
            lemma_div_pos_is_pos(mass_mg * a_upm * v_mid, 1_000_000_000_000int);
            lemma_div_is_ordered(
                mass_mg * a_upm * v_mid,
                40_000_000_000_000_000_000_000_000int,
                1_000_000_000_000int,
            );
        }
        let wide: u128 = (mass_mg as u128) * (a_upm as u128) * (v_mid as u128)
            / 1_000_000_000_000;
        wide as i64
    }
}

/// The smoothed altitude stays within the raw altitude bounds.
proof fn lemma_smoothed_alt_bounded(s: Seq<Sample>, i: int)
    requires
        forall|j: int| 0 <= j < s.len() ==> (#[trigger] s[j]).wf(),
        0 <= i < s.len(),
    ensures
        -100_000_000 <= smoothed_alt_spec(s, i) <= 100_000_000,
{
    assert(s[i].wf());
    if i > 0 {
        assert(s[i - 1].wf());
    }
    if i + 1 < s.len() {
        assert(s[i + 1].wf());
    }
}

/// The system mass a profile implies, in mg.
pub(crate) fn profile_mass(p: &Profile) -> (r: i64)
    requires
        p.wf(),
    ensures
        r == mass_of(*p),
        0 <= r <= 1_000_000_000,
{
    match p.total_weight_mg {
        Some(m) => m,
        None => DEFAULT_MASS_MG,
    }
}

/// The rolling-resistance coefficient a profile implies, in ppm.
pub(crate) fn profile_crr(p: &Profile) -> (r: i64)
    requires
        p.wf(),
    ensures
        r == crr_of(*p),
        0 <= r <= 100_000,
{
    match p.crr_ppm {
        Some(c) => c,
        None => DEFAULT_CRR_PPM,
    }
}

/// The CdA a profile implies, in ppm of m².
pub(crate) fn profile_cda(p: &Profile) -> (r: i64)
    requires
        p.wf(),
    ensures
        r == cda_of(*p),
        0 <= r <= 5_000_000,
{
    match p.cda_ppm {
        Some(c) => c,
        None => match &p.bike_type {
            Some(s) => cda_for(Some(s.as_str())),
            None => cda_for(None),
        },
    }
}

/// The heading used for sample `i`, in µdeg.
fn sample_heading(samples: &Vec<Sample>, i: usize) -> (h: i64)
    requires
        forall|j: int| 0 <= j < samples@.len() ==> (#[trigger] samples@[j]).wf(),
        i < samples@.len(),
    ensures
        h == heading_at_spec(samples@, i as int),
        0 <= h < 360_000_000,
{
    let n = samples.len();
    let s = samples[i];
    match s.heading_udeg {
        Some(h) => h,
        None => {
            if i + 1 < n {
                match samples[i].heading_to(&samples[i + 1]) {
                    Some(b) => b,
                    None => 0,
                }
            } else if i >= 1 {
                match samples[i - 1].heading_to(&samples[i]) {
                    Some(b) => b,
                    None => 0,
                }
            } else {
                0
            }
        },
    }
}

/// The per-sample output series of the decomposition engine.
#[derive(Clone, Debug)]
pub struct PowerOutputs {
    /// Estimated rider power per sample, in mW; never negative.
    pub power: Vec<i64>,
    /// Along-path wind component per sample, in mm/s; + = tailwind.
    pub wind_rel: Vec<i64>,
    /// Relative airspeed per sample, in mm/s.
    pub v_rel: Vec<i64>,
}

/// Power, along-path wind and relative airspeed at one sample, given the
/// smoothed altitude at the sample and its predecessor.
#[verifier::rlimit(60)]
fn power_at_sample(
    samples: &Vec<Sample>,
    i: usize,
    alt_i: i64,
    alt_prev: i64,
    mass_mg: i64,
    crr_ppm: i64,
    cda_ppm: i64,
    rho: i64,
    weather: &Weather,
) -> (r: (i64, i64, i64))
    requires
        forall|j: int| 0 <= j < samples@.len() ==> (#[trigger] samples@[j]).wf(),
        i < samples@.len(),
        0 <= mass_mg <= 1_000_000_000,
        0 <= crr_ppm <= 100_000,
        0 <= cda_ppm <= 5_000_000,
        weather.wf(),
        rho == rho_of(*weather),
        900_000 <= rho <= 1_400_000,
        alt_i == smoothed_alt_spec(samples@, i as int),
        i > 0 ==> alt_prev == smoothed_alt_spec(samples@, i as int - 1),
    ensures
        r.0 == power_sample_spec(
            samples@,
            mass_mg as int,
            crr_ppm as int,
            cda_ppm as int,
            *weather,
            i as int,
        ),
        0 <= r.0 <= MAX_POWER_MW,
        r.1 == wind_rel_at_spec(samples@, *weather, i as int),
        r.2 == v_rel_at_spec(samples@, *weather, i as int),
{
    let s = samples[i];
    let vc = if s.v_mms < 0 {
        0
    } else {
        s.v_mms
    };
    let vp = if i == 0 {
        vc
    } else {
        let pv = samples[i - 1].v_mms;
        if pv < 0 {
            0
        } else {
            pv
        }
    };
    let vmid = (vc + vp) / 2;
    let dt = if i == 0 {
        1000
    } else {
        let tp = samples[i - 1].t_ms;
        let d = if s.t_ms >= tp {
            s.t_ms - tp
        } else {
            tp - s.t_ms
        };
        if d < 1 {
            1
        } else {
            d
        }
    };
    let a_upm = div_trunc((vc - vp) * 1_000_000, dt);
    let slope = if i == 0 {
        0
    } else {
        proof {
            assert(vmid * dt <= 200_000 * 2_000_000_000_000int) by (nonlinear_arith)
                requires
                    0 <= vmid <= 200_000,
                    0 < dt <= 2_000_000_000_000,
            ;
            assert(vmid * dt >= 0) by (nonlinear_arith)
                requires
                    vmid >= 0,
                    dt >= 0,
            ;
            lemma_smoothed_alt_bounded(samples@, i as int);
            lemma_smoothed_alt_bounded(samples@, i as int - 1);
        }
        let dist = ((vmid as u64) * (dt as u64) / 1000) as i64;
        let dist1 = if dist < 1 {
            1
        } else {
            dist
        };
        let dh = alt_i - alt_prev;
        let raw = div_trunc(dh * 1_000_000, dist1);
        if raw < -300_000 {
            -300_000
        } else if raw > 300_000 {
            300_000
        } else {
            raw
        }
    };
    let heading = sample_heading(samples, i);
    let along = cg_along_wind_component(heading, weather.wind_dir_udeg, weather.wind_mms);
    let vr = {
        let d = vmid - along;
        if d >= 100 {
            d
        } else {
            100
        }
    };
    let p_roll = rolling_mw(mass_mg, crr_ppm, vmid);
    let p_aero = aero_mw(rho, cda_ppm, vr);
    let p_grav = gravity_mw(mass_mg, vmid, slope);
    let p_acc = accel_power_mw(mass_mg, a_upm, vmid);
    let p = p_roll + p_aero + p_grav + p_acc;
    (p, along, vr)
}

/// The decomposition engine over explicit coefficients.
pub(crate) fn decompose_with_coeffs(
    samples: &Vec<Sample>,
    mass_mg: i64,
    crr_ppm: i64,
    cda_ppm: i64,
    weather: &Weather,
) -> (out: PowerOutputs)
    requires
        forall|j: int| 0 <= j < samples@.len() ==> (#[trigger] samples@[j]).wf(),
        0 <= mass_mg <= 1_000_000_000,
        0 <= crr_ppm <= 100_000,
        0 <= cda_ppm <= 5_000_000,
        weather.wf(),
    ensures
        out.power@.len() == samples@.len(),
        out.wind_rel@.len() == samples@.len(),
        out.v_rel@.len() == samples@.len(),
        forall|i: int|
            0 <= i < samples@.len() ==> #[trigger] out.power@[i] == power_sample_spec(
                samples@,
                mass_mg as int,
                crr_ppm as int,
                cda_ppm as int,
                *weather,
                i,
            ),
        forall|i: int|
            0 <= i < samples@.len() ==> #[trigger] out.wind_rel@[i] == wind_rel_at_spec(
                samples@,
                *weather,
                i,
            ),
        forall|i: int|
            0 <= i < samples@.len() ==> #[trigger] out.v_rel@[i] == v_rel_at_spec(
                samples@,
                *weather,
                i,
            ),
        forall|i: int| 0 <= i < samples@.len() ==> 0 <= #[trigger] out.power@[i] <= MAX_POWER_MW,
{
    let n = samples.len();
    let alt = smooth_altitude(samples);
    let rho = air_density_ppm(weather.air_temp_mc, weather.air_pressure_mhpa);
    let mut power: Vec<i64> = Vec::new();
    let mut wind_rel: Vec<i64> = Vec::new();
    let mut v_rel: Vec<i64> = Vec::new();
    let mut i: usize = 0;
    while i < n
        invariant
            n == samples@.len(),
            i <= n,
            forall|j: int| 0 <= j < samples@.len() ==> (#[trigger] samples@[j]).wf(),
            0 <= mass_mg <= 1_000_000_000,
            0 <= crr_ppm <= 100_000,
            0 <= cda_ppm <= 5_000_000,
            weather.wf(),
            rho == rho_of(*weather),
            900_000 <= rho <= 1_400_000,
            alt@.len() == n,
            forall|j: int| 0 <= j < n ==> #[trigger] alt@[j] == smoothed_alt_spec(samples@, j),
            power@.len() == i,
            wind_rel@.len() == i,
            v_rel@.len() == i,
            forall|j: int|
                0 <= j < i ==> #[trigger] power@[j] == power_sample_spec(
                    samples@,
                    mass_mg as int,
                    crr_ppm as int,
                    cda_ppm as int,
                    *weather,
                    j,
                ),
            forall|j: int|
                0 <= j < i ==> #[trigger] wind_rel@[j] == wind_rel_at_spec(samples@, *weather, j),
            forall|j: int|
                0 <= j < i ==> #[trigger] v_rel@[j] == v_rel_at_spec(samples@, *weather, j),
            forall|j: int| 0 <= j < i ==> 0 <= #[trigger] power@[j] <= MAX_POWER_MW,
        decreases n - i,
    {
        let alt_i = alt[i];
        let alt_prev = if i > 0 {
            alt[i - 1]
        } else {
            0
        };
        let (p, along, vr) = power_at_sample(
            samples,
            i,
            alt_i,
            alt_prev,
            mass_mg,
            crr_ppm,
            cda_ppm,
            rho,
            weather,
        );
        power.push(p);
        wind_rel.push(along);
        v_rel.push(vr);
        i += 1;
    }
    PowerOutputs { power, wind_rel, v_rel }
}

/// Decompose a segment into per-sample power, along-path wind and
/// relative airspeed, all series of the segment's length.  Power is the
/// sum of the four non-negative terms — rolling, drag, uphill gravity,
/// acceleration — under the profile's (or default) coefficients; it is
/// never negative.
pub fn compute_power_with_wind(samples: &Vec<Sample>, profile: &Profile, weather: &Weather) -> (out:
    PowerOutputs)
    requires
        forall|j: int| 0 <= j < samples@.len() ==> (#[trigger] samples@[j]).wf(),
        profile.wf(),
        weather.wf(),
    ensures
        out.power@.len() == samples@.len(),
        out.wind_rel@.len() == samples@.len(),
        out.v_rel@.len() == samples@.len(),
        forall|i: int|
            0 <= i < samples@.len() ==> #[trigger] out.power@[i] == power_sample_profile_spec(
                samples@,
                *profile,
                *weather,
                i,
            ),
        forall|i: int|
            0 <= i < samples@.len() ==> #[trigger] out.wind_rel@[i] == wind_rel_at_spec(
                samples@,
                *weather,
                i,
            ),
        forall|i: int|
            0 <= i < samples@.len() ==> #[trigger] out.v_rel@[i] == v_rel_at_spec(
                samples@,
                *weather,
                i,
            ),
        forall|i: int| 0 <= i < samples@.len() ==> 0 <= #[trigger] out.power@[i] <= MAX_POWER_MW,
{
    let mass = profile_mass(profile);
    let crr = profile_crr(profile);
    let cda = profile_cda(profile);
    decompose_with_coeffs(samples, mass, crr, cda, weather)
}

/// The power series alone; a convenience over `compute_power_with_wind`.
pub fn compute_power(samples: &Vec<Sample>, profile: &Profile, weather: &Weather) -> (power: Vec<
    i64,
>)
    requires
        forall|j: int| 0 <= j < samples@.len() ==> (#[trigger] samples@[j]).wf(),
        profile.wf(),
        weather.wf(),
    ensures
        power@.len() == samples@.len(),
        forall|i: int|
            0 <= i < samples@.len() ==> #[trigger] power@[i] == power_sample_profile_spec(
                samples@,
                *profile,
                *weather,
                i,
            ),
        forall|i: int| 0 <= i < samples@.len() ==> 0 <= #[trigger] power@[i] <= MAX_POWER_MW,
{
    let out = compute_power_with_wind(samples, profile, weather);
    out.power
}

/// The power of an indoor (trainer) sample, in mW: a directly measured
/// reading passes through unchanged; otherwise a rolling + drag model at
/// sea-level air density, with no gravity or acceleration term.
pub open spec fn indoor_power_spec(s: Sample, p: Profile) -> int {
    match s.device_watts_mw {
        Some(wts) => wts as int,
        None => {
            let v = clamp0_spec(s.v_mms as int);
            let crr = match p.crr_ppm {
                Some(c) => c as int,
                None => 4_000,
            };
            aero_mw_spec(1_225_000, cda_of(p), v) + rolling_mw_spec(mass_of(p), crr, v)
        },
    }
}

/// The decomposition is deterministic: any two power series that meet
/// `compute_power_with_wind`'s contract on the same inputs are equal.
pub proof fn lemma_decompose_power_deterministic(
    s: Seq<Sample>,
    p: Profile,
    w: Weather,
    out1: Seq<i64>,
    out2: Seq<i64>,
)
    requires
        out1.len() == s.len(),
        out2.len() == s.len(),
        forall|i: int|
            0 <= i < s.len() ==> #[trigger] out1[i] == power_sample_profile_spec(s, p, w, i),
        forall|i: int|
            0 <= i < s.len() ==> #[trigger] out2[i] == power_sample_profile_spec(s, p, w, i),
    ensures
        out1 == out2,
{
    assert(out1 =~= out2);
}

/// The power estimate is never negative, whatever the sign of the
/// acceleration or of the grade: each of the four terms is non-negative.
pub proof fn lemma_power_sample_nonnegative(s: Seq<Sample>, p: Profile, w: Weather, i: int)
    requires
        forall|j: int| 0 <= j < s.len() ==> (#[trigger] s[j]).wf(),
        p.wf(),
        0 <= i < s.len(),
    ensures
        power_sample_profile_spec(s, p, w, i) >= 0,
{
    let mass = mass_of(p);
    let crr = crr_of(p);
    let cda = cda_of(p);
    let vm = v_mid_spec(s, i);
    let vr = v_rel_at_spec(s, w, i);
    let slope = slope_ppm_spec(s, i);
    let a = accel_upm_spec(s, i);
    let rho = rho_of(w);
    assert(s[i].wf());
    if i > 0 {
        assert(s[i - 1].wf());
    }
    assert(vm >= 0);
    assert(vr >= 100);
    assert(mass * 9_806_650 * crr * vm >= 0) by (nonlinear_arith)
        requires
            mass >= 0,
            crr >= 0,
            vm >= 0,
    ;
    lemma_div_pos_is_pos(mass * 9_806_650 * crr * vm, 1_000_000_000_000_000_000int);
    assert(rho >= 0);
    assert(cda >= 0);
    assert(rho * cda * (vr * vr * vr) >= 0) by (nonlinear_arith)
        requires
            rho >= 0,
            cda >= 0,
            vr >= 0,
    ;
    lemma_div_pos_is_pos(rho * cda * (vr * vr * vr), 2_000_000_000_000_000_000int);
    if slope > 0 {
        assert(mass * 9_806_650 * vm * slope >= 0) by (nonlinear_arith)
            requires
                mass >= 0,
                vm >= 0,
                slope > 0,
        ;
        lemma_div_pos_is_pos(mass * 9_806_650 * vm * slope, 1_000_000_000_000_000_000int);
    }
    if a > 0 {
        assert(mass * a * vm >= 0) by (nonlinear_arith)
            requires
                mass >= 0,
                vm >= 0,
                a > 0,
        ;
        lemma_div_pos_is_pos(mass * a * vm, 1_000_000_000_000int);
    }
}

/// Holding everything else fixed, a stronger headwind — a strictly
/// smaller along-path component — strictly increases the relative
/// airspeed (once the baseline sits above the floor), strictly increases
/// the cubic drag product, and never decreases the drag term in mW.
pub proof fn lemma_headwind_monotone(
    v_mid: int,
    along1: int,
    along2: int,
    rho_ppm: int,
    cda_ppm: int,
)
    requires
        along2 < along1,
        v_mid - along1 >= 100,
        0 <= rho_ppm,
        0 <= cda_ppm,
    ensures
        crate::geometry::airspeed_floor_spec(v_mid, along2) > crate::geometry::airspeed_floor_spec(
            v_mid,
            along1,
        ),
        ({
            let v1 = crate::geometry::airspeed_floor_spec(v_mid, along1);
            let v2 = crate::geometry::airspeed_floor_spec(v_mid, along2);
            v2 * v2 * v2 > v1 * v1 * v1
        }),
        aero_mw_spec(rho_ppm, cda_ppm, crate::geometry::airspeed_floor_spec(v_mid, along2))
            >= aero_mw_spec(rho_ppm, cda_ppm, crate::geometry::airspeed_floor_spec(v_mid, along1)),
{
    let v1 = crate::geometry::airspeed_floor_spec(v_mid, along1);
    let v2 = crate::geometry::airspeed_floor_spec(v_mid, along2);
    assert(v2 > v1 >= 100);
    assert(v2 * v2 * v2 > v1 * v1 * v1) by (nonlinear_arith)
        requires
            v2 > v1 >= 100,
    ;
    assert(rho_ppm * cda_ppm * (v2 * v2 * v2) >= rho_ppm * cda_ppm * (v1 * v1 * v1))
        by (nonlinear_arith)
        requires
            0 <= rho_ppm,
            0 <= cda_ppm,
            v2 * v2 * v2 > v1 * v1 * v1 >= 0,
    ;
    lemma_div_is_ordered(
        rho_ppm * cda_ppm * (v1 * v1 * v1),
        rho_ppm * cda_ppm * (v2 * v2 * v2),
        2_000_000_000_000_000_000int,
    );
    assert(v1 * v1 * v1 >= 0) by (nonlinear_arith)
        requires
            v1 >= 100,
    ;
}

/// Estimated power for one indoor sample, in mW.
pub fn compute_indoor_power(sample: &Sample, profile: &Profile) -> (r: i64)
    requires
        sample.wf(),
        profile.wf(),
    ensures
        r == indoor_power_spec(*sample, *profile),
{
    match sample.device_watts_mw {
        Some(wts) => wts,
        None => {
            let v = if sample.v_mms < 0 {
                0
            } else {
                sample.v_mms
            };
            let crr = match profile.crr_ppm {
                Some(c) => c,
                None => DEFAULT_INDOOR_CRR_PPM,
            };
            let mass = profile_mass(profile);
            let cda = profile_cda(profile);
            let p_aero = aero_mw(INDOOR_RHO_PPM, cda, v);
            let p_roll = rolling_mw(mass, crr, v);
            p_aero + p_roll
        },
    }
}

} // verus!
