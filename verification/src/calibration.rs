//! Coefficient calibration against a measured power series.
//!
//! Given a segment of samples and the series an actual power meter
//! recorded over it, a grid search over the rolling-resistance
//! coefficient (drag held fixed) picks the candidate whose modelled power
//! has the lowest mean absolute error against the measured series.  A
//! segment can be rejected first, for one of four reasons, checked in
//! this order: too short, measured series of the wrong length, a
//! non-finite measured reading (carried as `None`), or an indoor session.
//! Every path returns a fully populated result; rejection is an answer,
//! not an error.

use crate::geometry::{abs_spec, div_trunc_spec};
use crate::models::{Profile, Sample, Weather};
use crate::physics::{
    cda_of, crr_of, decompose_with_coeffs, mass_of, power_sample_spec, profile_cda, profile_crr,
    profile_mass, MAX_POWER_MW,
};
use vstd::arithmetic::div_mod::{lemma_div_by_multiple, lemma_div_is_ordered, lemma_div_pos_is_pos};
use vstd::prelude::*;

verus! {

/// Fewer samples than this cannot calibrate.
pub const MIN_SEGMENT_SAMPLES: usize = 300;

/// Why a calibration attempt was rejected.
#[derive(Clone, Copy, Debug, PartialEq, Eq, Structural)]
pub enum CalibrationRejection {
    /// The segment holds fewer than `MIN_SEGMENT_SAMPLES` samples.
    InsufficientSegment,
    /// The measured series is not as long as the segment.
    LengthMismatchModelVsMeasured,
    /// A measured reading was not a finite number.
    NonFiniteMeasuredPower,
    /// No GPS anywhere and a flat altitude: an indoor session.
    IndoorSession,
}

impl CalibrationRejection {
    /// The stable wire label of this rejection reason.
    pub fn label(&self) -> (r: String)
        ensures
            *self == CalibrationRejection::InsufficientSegment ==> r@ == "insufficient_segment"@,
            *self == CalibrationRejection::LengthMismatchModelVsMeasured ==> r@
                == "length_mismatch_model_vs_measured"@,
            *self == CalibrationRejection::NonFiniteMeasuredPower ==> r@
                == "non_finite_measured_power"@,
            *self == CalibrationRejection::IndoorSession ==> r@ == "indoor_session"@,
    {
        match self {
            CalibrationRejection::InsufficientSegment => "insufficient_segment".to_owned(),
            CalibrationRejection::LengthMismatchModelVsMeasured => {
                "length_mismatch_model_vs_measured".to_owned()
            },
            CalibrationRejection::NonFiniteMeasuredPower => "non_finite_measured_power".to_owned(),
            CalibrationRejection::IndoorSession => "indoor_session".to_owned(),
        }
    }
}

/// The outcome of a calibration attempt.
#[derive(Clone, Copy, Debug)]
pub struct CalibrationResult {
    /// The CdA the fit held fixed, in ppm of m².
    pub cda_ppm: i64,
    /// The best rolling-resistance coefficient found, in ppm.
    pub crr_ppm: i64,
    /// The mean absolute error of the best candidate, in mW.
    pub mae_mw: i64,
    /// Whether the fit is trustworthy.
    pub calibrated: bool,
    /// The rejection reason, when the segment could not calibrate.
    pub reason: Option<CalibrationRejection>,
}

/// Each measured reading, where present, is a plausible power in mW.
pub open spec fn measured_wf(m: Seq<Option<i64>>) -> bool {
    forall|i: int|
        0 <= i < m.len() ==> match #[trigger] m[i] {
            Some(p) => -1_000_000_000 <= p <= 1_000_000_000,
            None => true,
        }
}

/// Every measured reading is present (was a finite number).
pub open spec fn all_finite(m: Seq<Option<i64>>) -> bool {
    forall|i: int| 0 <= i < m.len() ==> (#[trigger] m[i]) is Some
}

/// The measured value at `i`, defaulting to 0 where absent.
pub open spec fn measured_val(m: Seq<Option<i64>>, i: int) -> int {
    match m[i] {
        Some(p) => p as int,
        None => 0,
    }
}

/// No sample of the segment carries a GPS fix.
pub open spec fn no_gps(s: Seq<Sample>) -> bool {
    forall|i: int|
        0 <= i < s.len() ==> (#[trigger] s[i]).latitude_udeg is None && s[i].longitude_udeg is None
}

/// The altitude varies by less than 0.5 m over the whole segment.
pub open spec fn flat_altitude(s: Seq<Sample>) -> bool {
    forall|i: int, j: int|
        0 <= i < s.len() && 0 <= j < s.len() ==> (#[trigger] s[i]).altitude_mm
            - (#[trigger] s[j]).altitude_mm < 500
}

/// An indoor (trainer) session: no GPS anywhere and a flat altitude.
pub open spec fn is_indoor_spec(s: Seq<Sample>) -> bool {
    no_gps(s) && flat_altitude(s)
}

/// Sum over the first `k` samples of |modelled − measured| power, in mW.
pub open spec fn abs_err_sum_upto(
    s: Seq<Sample>,
    mass: int,
    crr: int,
    cda: int,
    w: Weather,
    m: Seq<Option<i64>>,
    k: int,
) -> int
    decreases k,
{
    if k <= 0 {
        0
    } else {
        abs_err_sum_upto(s, mass, crr, cda, w, m, k - 1) + abs_spec(
            power_sample_spec(s, mass, crr, cda, w, k - 1) - measured_val(m, k - 1),
        )
    }
}

/// The mean absolute error of the model at candidate `crr`, in mW.
pub open spec fn cand_mae(
    s: Seq<Sample>,
    mass: int,
    cda: int,
    w: Weather,
    m: Seq<Option<i64>>,
    crr: int,
) -> int {
    abs_err_sum_upto(s, mass, crr, cda, w, m, s.len() as int) / s.len() as int
}

/// The `k`-th grid candidate: 0.003 to 0.008 in steps of 0.001, in ppm.
pub open spec fn grid_crr(k: int) -> int {
    3_000 + 1_000 * k
}

/// Best (crr, mae) among the first `k` grid candidates; on a tie the
/// earlier — lower — candidate stands.
pub open spec fn best_upto(
    s: Seq<Sample>,
    mass: int,
    cda: int,
    w: Weather,
    m: Seq<Option<i64>>,
    k: int,
) -> (int, int)
    decreases k,
{
    if k <= 1 {
        (grid_crr(0), cand_mae(s, mass, cda, w, m, grid_crr(0)))
    } else {
        let prev = best_upto(s, mass, cda, w, m, k - 1);
        let mk = cand_mae(s, mass, cda, w, m, grid_crr(k - 1));
        if mk < prev.1 {
            (grid_crr(k - 1), mk)
        } else {
            prev
        }
    }
}

/// Sum of the measured readings over the first `k` samples, in mW.
pub open spec fn measured_sum_upto(m: Seq<Option<i64>>, k: int) -> int
    decreases k,
{
    if k <= 0 {
        0
    } else {
        measured_sum_upto(m, k - 1) + measured_val(m, k - 1)
    }
}

/// The average measured power, in mW (truncated towards zero).
pub open spec fn avg_measured_spec(m: Seq<Option<i64>>) -> int {
    div_trunc_spec(measured_sum_upto(m, m.len() as int), m.len() as int)
}

/// A rejection outcome: the profile's coefficients unchanged, no error,
/// not calibrated, and the reason named.
pub open spec fn is_rejection(r: CalibrationResult, p: Profile, why: CalibrationRejection) -> bool {
    &&& r.cda_ppm == cda_of(p)
    &&& r.crr_ppm == crr_of(p)
    &&& r.mae_mw == 0
    &&& !r.calibrated
    &&& r.reason == Some(why)
}

/// The calibration outcome, as a function of the inputs alone: the first
/// matching rejection rule wins; otherwise the grid's best candidate,
/// trusted iff its error stays under 10 % of the average measured power.
pub open spec fn calibrate_spec(
    s: Seq<Sample>,
    m: Seq<Option<i64>>,
    p: Profile,
    w: Weather,
) -> CalibrationResult {
    if s.len() < 300 {
        rejection_spec(p, CalibrationRejection::InsufficientSegment)
    } else if m.len() != s.len() {
        rejection_spec(p, CalibrationRejection::LengthMismatchModelVsMeasured)
    } else if !all_finite(m) {
        rejection_spec(p, CalibrationRejection::NonFiniteMeasuredPower)
    } else if is_indoor_spec(s) {
        rejection_spec(p, CalibrationRejection::IndoorSession)
    } else {
        let best = best_upto(s, mass_of(p), cda_of(p), w, m, 6);
        CalibrationResult {
            cda_ppm: cda_of(p) as i64,
            crr_ppm: best.0 as i64,
            mae_mw: best.1 as i64,
            calibrated: 10 * best.1 < avg_measured_spec(m),
            reason: None,
        }
    }
}

/// The result a rejection produces.
pub open spec fn rejection_spec(p: Profile, why: CalibrationRejection) -> CalibrationResult {
    CalibrationResult {
        cda_ppm: cda_of(p) as i64,
        crr_ppm: crr_of(p) as i64,
        mae_mw: 0,
        calibrated: false,
        reason: Some(why),
    }
}

/// Whether a segment is an indoor session: no GPS fix anywhere and an
/// altitude range under 0.5 m.
fn is_indoor_session(samples: &Vec<Sample>) -> (r: bool)
    requires
        forall|j: int| 0 <= j < samples@.len() ==> (#[trigger] samples@[j]).wf(),
    ensures
        r == is_indoor_spec(samples@),
{
    let n = samples.len();
    let mut i: usize = 0;
    while i < n
        invariant
            i <= n,
            n == samples@.len(),
            forall|j: int|
                0 <= j < i ==> (#[trigger] samples@[j]).latitude_udeg is None
                    && samples@[j].longitude_udeg is None,
        decreases n - i,
    {
        if samples[i].latitude_udeg.is_some() || samples[i].longitude_udeg.is_some() {
            return false;
        }
        i += 1;
    }
    if n == 0 {
        return true;
    }
    let mut lo = samples[0].altitude_mm;
    let mut hi = samples[0].altitude_mm;
    let ghost mut lo_at: int = 0;
    let ghost mut hi_at: int = 0;
    let mut k: usize = 1;
    while k < n
        invariant
            1 <= k <= n,
            n == samples@.len(),
            forall|j: int| 0 <= j < n ==> (#[trigger] samples@[j]).wf(),
            0 <= lo_at < k,
            0 <= hi_at < k,
            lo == samples@[lo_at].altitude_mm,
            hi == samples@[hi_at].altitude_mm,
            forall|j: int| 0 <= j < k ==> lo <= (#[trigger] samples@[j]).altitude_mm <= hi,
        decreases n - k,
    {
        let a = samples[k].altitude_mm;
        if a < lo {
            lo = a;
            proof {
                lo_at = k as int;
            }
        }
        if a > hi {
            hi = a;
            proof {
                hi_at = k as int;
            }
        }
        k += 1;
    }
    if hi - lo < 500 {
        true
    } else {
        proof {
            assert(samples@[hi_at].altitude_mm - samples@[lo_at].altitude_mm >= 500);
            assert(!flat_altitude(samples@));
        }
        false
    }
}

/// The mean absolute error of the modelled power at the given
/// coefficients against the measured series, in mW.
fn mae_for(
    samples: &Vec<Sample>,
    mass_mg: i64,
    crr_ppm: i64,
    cda_ppm: i64,
    weather: &Weather,
    measured: &Vec<Option<i64>>,
) -> (mae: i64)
    requires
        forall|j: int| 0 <= j < samples@.len() ==> (#[trigger] samples@[j]).wf(),
        weather.wf(),
        measured_wf(measured@),
        measured@.len() == samples@.len(),
        samples@.len() >= 1,
        0 <= mass_mg <= 1_000_000_000,
        0 <= crr_ppm <= 100_000,
        0 <= cda_ppm <= 5_000_000,
    ensures
        mae as int == cand_mae(
            samples@,
            mass_mg as int,
            cda_ppm as int,
            *weather,
            measured@,
            crr_ppm as int,
        ),
        0 <= mae <= 51_000_000_000_000,
{
    let out = decompose_with_coeffs(samples, mass_mg, crr_ppm, cda_ppm, weather);
    let model = out.power;
    let n = samples.len();
    let mut acc: i128 = 0;
    let mut i: usize = 0;
    while i < n
        invariant
            i <= n,
            n == samples@.len(),
            n == measured@.len(),
            n == model@.len(),
            measured_wf(measured@),
            forall|j: int|
                0 <= j < n ==> #[trigger] model@[j] == power_sample_spec(
                    samples@,
                    mass_mg as int,
                    crr_ppm as int,
                    cda_ppm as int,
                    *weather,
                    j,
                ),
            forall|j: int| 0 <= j < n ==> 0 <= #[trigger] model@[j] <= MAX_POWER_MW,
            acc == abs_err_sum_upto(
                samples@,
                mass_mg as int,
                crr_ppm as int,
                cda_ppm as int,
                *weather,
                measured@,
                i as int,
            ),
            0 <= acc <= 51_000_000_000_000 * i,
        decreases n - i,
    {
        let m = model[i];
        let y = match measured[i] {
            Some(p) => p,
            None => 0,
        };
        let d = if m >= y {
            m - y
        } else {
            y - m
        };
        acc = acc + (d as i128);
        i += 1;
    }
    proof {
        lemma_div_by_multiple(51_000_000_000_000int, n as int);
        lemma_div_is_ordered(acc as int, 51_000_000_000_000 * (n as int), n as int);
        lemma_div_pos_is_pos(acc as int, n as int);
    }
    (acc / (n as i128)) as i64
}

/// The average measured power, in mW (truncated towards zero).
fn avg_measured(measured: &Vec<Option<i64>>) -> (avg: i64)
    requires
        measured_wf(measured@),
        measured@.len() >= 1,
    ensures
        avg as int == avg_measured_spec(measured@),
        -1_000_000_000 <= avg <= 1_000_000_000,
{
    let n = measured.len();
    let mut acc: i128 = 0;
    let mut i: usize = 0;
    while i < n
        invariant
            i <= n,
            n == measured@.len(),
            measured_wf(measured@),
            acc == measured_sum_upto(measured@, i as int),
            -1_000_000_000 * (i as int) <= acc <= 1_000_000_000 * (i as int),
        decreases n - i,
    {
        let y = match measured[i] {
            Some(p) => p,
            None => 0,
        };
        acc = acc + (y as i128);
        i += 1;
    }
    proof {
        lemma_div_by_multiple(1_000_000_000int, n as int);
        if acc >= 0 {
            lemma_div_is_ordered(acc as int, 1_000_000_000 * (n as int), n as int);
            lemma_div_pos_is_pos(acc as int, n as int);
        } else {
            lemma_div_is_ordered(-acc as int, 1_000_000_000 * (n as int), n as int);
            lemma_div_pos_is_pos(-acc as int, n as int);
        }
    }
    if acc >= 0 {
        (acc / (n as i128)) as i64
    } else {
        -((-acc / (n as i128)) as i64)
    }
}

/// Fit the rolling-resistance coefficient to a measured power series by
/// grid search, the drag coefficient held fixed.  The outcome — fit or
/// rejection, with its reason — is exactly `calibrate_spec` of the
/// inputs: the first matching rejection rule wins, and otherwise the
/// grid's best candidate is reported, trusted iff its mean absolute
/// error stays under 10 % of the average measured power.
pub fn fit_cda_crr(
    samples: &Vec<Sample>,
    measured_power_mw: &Vec<Option<i64>>,
    profile: &Profile,
    weather: &Weather,
) -> (result: CalibrationResult)
    requires
        forall|j: int| 0 <= j < samples@.len() ==> (#[trigger] samples@[j]).wf(),
        profile.wf(),
        weather.wf(),
        measured_wf(measured_power_mw@),
    ensures
        result == calibrate_spec(samples@, measured_power_mw@, *profile, *weather),
        0 <= result.cda_ppm <= 5_000_000,
        0 <= result.crr_ppm <= 100_000,
        0 <= result.mae_mw,
{
    let n = samples.len();
    if n < MIN_SEGMENT_SAMPLES {
        return CalibrationResult {
            cda_ppm: profile_cda(profile),
            crr_ppm: profile_crr(profile),
            mae_mw: 0,
            calibrated: false,
            reason: Some(CalibrationRejection::InsufficientSegment),
        };
    }
    if measured_power_mw.len() != n {
        return CalibrationResult {
            cda_ppm: profile_cda(profile),
            crr_ppm: profile_crr(profile),
            mae_mw: 0,
            calibrated: false,
            reason: Some(CalibrationRejection::LengthMismatchModelVsMeasured),
        };
    }
    let mut i: usize = 0;
    while i < n
        invariant
            i <= n,
            n == measured_power_mw@.len(),
            n == samples@.len(),
            n >= 300,
            profile.wf(),
            forall|j: int| 0 <= j < i ==> (#[trigger] measured_power_mw@[j]) is Some,
        decreases n - i,
    {
        if measured_power_mw[i].is_none() {
            return CalibrationResult {
                cda_ppm: profile_cda(profile),
                crr_ppm: profile_crr(profile),
                mae_mw: 0,
                calibrated: false,
                reason: Some(CalibrationRejection::NonFiniteMeasuredPower),
            };
        }
        i += 1;
    }
    if is_indoor_session(samples) {
        return CalibrationResult {
            cda_ppm: profile_cda(profile),
            crr_ppm: profile_crr(profile),
            mae_mw: 0,
            calibrated: false,
            reason: Some(CalibrationRejection::IndoorSession),
        };
    }
    let mass = profile_mass(profile);
    let fixed_cda = profile_cda(profile);
    let mut best_crr: i64 = 3_000;
    let mut best_mae: i64 = mae_for(samples, mass, 3_000, fixed_cda, weather, measured_power_mw);
    let mut k: usize = 1;
    while k < 6
        invariant
            1 <= k <= 6,
            n == samples@.len(),
            n == measured_power_mw@.len(),
            n >= 1,
            forall|j: int| 0 <= j < samples@.len() ==> (#[trigger] samples@[j]).wf(),
            profile.wf(),
            weather.wf(),
            measured_wf(measured_power_mw@),
            mass == mass_of(*profile),
            0 <= mass <= 1_000_000_000,
            fixed_cda == cda_of(*profile),
            0 <= fixed_cda <= 5_000_000,
            (best_crr as int, best_mae as int) == best_upto(
                samples@,
                mass_of(*profile),
                cda_of(*profile),
                *weather,
                measured_power_mw@,
                k as int,
            ),
            3_000 <= best_crr <= 8_000,
            0 <= best_mae <= 51_000_000_000_000,
        decreases 6 - k,
    {
        let c: i64 = 3_000 + 1_000 * (k as i64);
        let mk = mae_for(samples, mass, c, fixed_cda, weather, measured_power_mw);
        if mk < best_mae {
            best_crr = c;
            best_mae = mk;
        }
        k += 1;
    }
    let avg = avg_measured(measured_power_mw);
    let calibrated = 10 * best_mae < avg;
    CalibrationResult {
        cda_ppm: fixed_cda,
        crr_ppm: best_crr,
        mae_mw: best_mae,
        calibrated,
        reason: None,
    }
}

/// Merge a calibration outcome into a profile: the fitted coefficients
/// and error replace the old ones, and a trusted fit clears the
/// estimate flag.  Everything else is untouched.
pub fn apply_calibration_to_profile(profile: &mut Profile, result: &CalibrationResult)
    requires
        old(profile).wf(),
        0 <= result.cda_ppm <= 5_000_000,
        0 <= result.crr_ppm <= 100_000,
        0 <= result.mae_mw,
    ensures
        final(profile).cda_ppm == Some(result.cda_ppm),
        final(profile).crr_ppm == Some(result.crr_ppm),
        final(profile).calibrated == result.calibrated,
        final(profile).calibration_mae_mw == Some(result.mae_mw),
        final(profile).estimat == if result.calibrated {
            false
        } else {
            old(profile).estimat
        },
        final(profile).total_weight_mg == old(profile).total_weight_mg,
        final(profile).bike_type == old(profile).bike_type,
        final(profile).wf(),
{
    profile.cda_ppm = Some(result.cda_ppm);
    profile.crr_ppm = Some(result.crr_ppm);
    profile.calibrated = result.calibrated;
    profile.calibration_mae_mw = Some(result.mae_mw);
    if result.calibrated {
        profile.estimat = false;
    }
}

/// The rejection rules fire in order: a segment that is too short is
/// rejected as such, whatever else — a mismatched measured length
/// included — may also be wrong with it.
pub proof fn lemma_rejection_priority(s: Seq<Sample>, m: Seq<Option<i64>>, p: Profile, w: Weather)
    requires
        s.len() < 300,
    ensures
        calibrate_spec(s, m, p, w).reason == Some(CalibrationRejection::InsufficientSegment),
        !calibrate_spec(s, m, p, w).calibrated,
{
}

/// A measured series that equals the modelled series at some
/// coefficients has zero accumulated error there: the fit recovers exact
/// data exactly.
pub proof fn lemma_exact_series_has_zero_error(
    s: Seq<Sample>,
    mass: int,
    crr: int,
    cda: int,
    w: Weather,
    m: Seq<Option<i64>>,
    k: int,
)
    requires
        0 <= k <= s.len(),
        forall|i: int|
            0 <= i < s.len() ==> measured_val(m, i) == power_sample_spec(s, mass, crr, cda, w, i),
    ensures
        abs_err_sum_upto(s, mass, crr, cda, w, m, k) == 0,
    decreases k,
{
    if k > 0 {
        lemma_exact_series_has_zero_error(s, mass, crr, cda, w, m, k - 1);
    }
}

/// The accumulated error is never negative.
proof fn lemma_abs_err_sum_nonneg(
    s: Seq<Sample>,
    mass: int,
    crr: int,
    cda: int,
    w: Weather,
    m: Seq<Option<i64>>,
    k: int,
)
    ensures
        0 <= abs_err_sum_upto(s, mass, crr, cda, w, m, k),
    decreases k,
{
    if k > 0 {
        lemma_abs_err_sum_nonneg(s, mass, crr, cda, w, m, k - 1);
    }
}

/// When the measured series equals the modelled series at one of the
/// grid candidates, the search reports exactly zero error: the fit
/// recovers data the engine itself produced.
pub proof fn lemma_fit_recovers_exact_data(
    s: Seq<Sample>,
    mass: int,
    cda: int,
    w: Weather,
    m: Seq<Option<i64>>,
    k: int,
)
    requires
        s.len() >= 1,
        0 <= k < 6,
        forall|i: int|
            0 <= i < s.len() ==> measured_val(m, i) == power_sample_spec(
                s,
                mass,
                grid_crr(k),
                cda,
                w,
                i,
            ),
    ensures
        best_upto(s, mass, cda, w, m, 6).1 == 0,
{
    let n = s.len() as int;
    lemma_exact_series_has_zero_error(s, mass, grid_crr(k), cda, w, m, n);
    lemma_div_pos_is_pos(0int, n);
    assert(cand_mae(s, mass, cda, w, m, grid_crr(k)) == 0) by {
        vstd::arithmetic::div_mod::lemma_div_of0(n);
    }
    lemma_best_fit_minimal(s, mass, cda, w, m, 6);
    assert(best_upto(s, mass, cda, w, m, 6).1 <= 0);
    let j = choose|j: int|
        0 <= j < 6 && best_upto(s, mass, cda, w, m, 6).0 == #[trigger] grid_crr(j) && best_upto(
            s,
            mass,
            cda,
            w,
            m,
            6,
        ).1 == cand_mae(s, mass, cda, w, m, grid_crr(j));
    lemma_abs_err_sum_nonneg(s, mass, grid_crr(j), cda, w, m, n);
    lemma_div_pos_is_pos(abs_err_sum_upto(s, mass, grid_crr(j), cda, w, m, n), n);
}

/// The grid search is sound: the reported error is the least over the
/// candidates considered, and the reported coefficient attains it (the
/// lowest such candidate on a tie).
pub proof fn lemma_best_fit_minimal(
    s: Seq<Sample>,
    mass: int,
    cda: int,
    w: Weather,
    m: Seq<Option<i64>>,
    k: int,
)
    requires
        1 <= k <= 6,
    ensures
        forall|j: int|
            0 <= j < k ==> best_upto(s, mass, cda, w, m, k).1 <= cand_mae(
                s,
                mass,
                cda,
                w,
                m,
                #[trigger] grid_crr(j),
            ),
        exists|j: int|
            0 <= j < k && best_upto(s, mass, cda, w, m, k).0 == #[trigger] grid_crr(j) && best_upto(
                s,
                mass,
                cda,
                w,
                m,
                k,
            ).1 == cand_mae(s, mass, cda, w, m, grid_crr(j)),
    decreases k,
{
    if k == 1 {
        assert(best_upto(s, mass, cda, w, m, 1).0 == grid_crr(0) && best_upto(
            s,
            mass,
            cda,
            w,
            m,
            1,
        ).1 == cand_mae(s, mass, cda, w, m, grid_crr(0)));
    } else {
        lemma_best_fit_minimal(s, mass, cda, w, m, k - 1);
        let prev = best_upto(s, mass, cda, w, m, k - 1);
        let mk = cand_mae(s, mass, cda, w, m, grid_crr(k - 1));
        if mk < prev.1 {
            assert(best_upto(s, mass, cda, w, m, k).0 == grid_crr(k - 1) && best_upto(
                s,
                mass,
                cda,
                w,
                m,
                k,
            ).1 == mk);
        }
    }
}

} // verus!
