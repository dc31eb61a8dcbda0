//! Telemetry, rider/bike and weather data types.
//!
//! Every quantity is a scaled integer: time in ms, speed in mm/s, altitude
//! in mm, angles in µdeg, mass in mg, power in mW, Crr/CdA/air density in
//! ppm.  Optional fields stand for readings a device may not deliver (or
//! may deliver as a non-finite number, which the caller maps to `None`).
//! Each type has a well-formedness predicate giving the physically and
//! numerically admissible ranges; the analysis functions require it.

use crate::geometry::{
    bearing_spec, cosine_pm_spec, initial_bearing, scale_pm_spec, wrap360_spec,
};
use vstd::prelude::*;

verus! {

/// The wind component along a travel heading, positive towards the rider
/// (a headwind), in mm/s: the raw wind speed times the cosine of the
/// angle between the heading and the wind-FROM bearing.
pub open spec fn headwind_spec(w: Weather, heading: int) -> int {
    scale_pm_spec(
        w.wind_mms as int,
        cosine_pm_spec(wrap360_spec(heading - w.wind_dir_udeg as int)),
    )
}

/// The initial bearing from `a` to `b`, when both carry a GPS fix.
pub open spec fn heading_to_spec(a: Sample, b: Sample) -> Option<int> {
    match (a.latitude_udeg, a.longitude_udeg, b.latitude_udeg, b.longitude_udeg) {
        (Some(la1), Some(lo1), Some(la2), Some(lo2)) => Some(
            bearing_spec(la1 as int, lo1 as int, la2 as int, lo2 as int),
        ),
        _ => None,
    }
}

/// One telemetry instant of a ride.
#[derive(Clone, Copy, Debug)]
pub struct Sample {
    /// Timestamp in milliseconds, non-decreasing within a segment.
    pub t_ms: i64,
    /// Ground speed in mm/s; negative readings are clamped by the engine.
    pub v_mms: i64,
    /// Raw altimeter altitude in mm.
    pub altitude_mm: i64,
    /// Travel heading in µdeg, 0 = north; `None` when the device gave none.
    pub heading_udeg: Option<i64>,
    /// Whether the rider was moving.
    pub moving: bool,
    /// Directly measured power in mW, when a power meter was present.
    pub device_watts_mw: Option<i64>,
    /// GPS latitude in µdeg.
    pub latitude_udeg: Option<i64>,
    /// GPS longitude in µdeg.
    pub longitude_udeg: Option<i64>,
}

impl Sample {
    /// Admissible ranges: about 31 years of ms, ±200 m/s, ±100 km of
    /// altitude, wrapped headings, ±1 MW, and on-globe coordinates.
    pub open spec fn wf(self) -> bool {
        &&& -1_000_000_000_000 <= self.t_ms <= 1_000_000_000_000
        &&& -200_000 <= self.v_mms <= 200_000
        &&& -100_000_000 <= self.altitude_mm <= 100_000_000
        &&& match self.heading_udeg {
            Some(h) => 0 <= h < 360_000_000,
            None => true,
        }
        &&& match self.device_watts_mw {
            Some(p) => -1_000_000_000 <= p <= 1_000_000_000,
            None => true,
        }
        &&& match self.latitude_udeg {
            Some(lat) => -90_000_000 <= lat <= 90_000_000,
            None => true,
        }
        &&& match self.longitude_udeg {
            Some(lon) => -180_000_000 <= lon <= 180_000_000,
            None => true,
        }
    }

    /// The travel bearing (0–360° µdeg, 0 = north) from this fix to
    /// `next`, or `None` when either sample lacks GPS coordinates.
    pub fn heading_to(&self, next: &Sample) -> (r: Option<i64>)
        requires
            self.wf(),
            next.wf(),
        ensures
            r matches Some(h) ==> heading_to_spec(*self, *next) == Some(h as int) && 0 <= h
                < 360_000_000,
            r is None ==> heading_to_spec(*self, *next) is None,
    {
        match (self.latitude_udeg, self.longitude_udeg, next.latitude_udeg, next.longitude_udeg) {
            (Some(la1), Some(lo1), Some(la2), Some(lo2)) => Some(
                initial_bearing(la1, lo1, la2, lo2),
            ),
            _ => None,
        }
    }
}

impl Default for Sample {
    /// The neutral sample: everything zero, no power meter and no GPS fix,
    /// with a (finite) zero heading as the raw telemetry would carry.
    fn default() -> (s: Sample)
        ensures
            s.t_ms == 0 && s.v_mms == 0 && s.altitude_mm == 0,
            s.heading_udeg == Some(0i64),
            !s.moving,
            s.device_watts_mw.is_none(),
            s.latitude_udeg.is_none() && s.longitude_udeg.is_none(),
            s.wf(),
    {
        Sample {
            t_ms: 0,
            v_mms: 0,
            altitude_mm: 0,
            heading_udeg: Some(0),
            moving: false,
            device_watts_mw: None,
            latitude_udeg: None,
            longitude_udeg: None,
        }
    }
}

/// Ambient conditions over a segment.
#[derive(Clone, Copy, Debug)]
pub struct Weather {
    /// Wind speed in mm/s; negative readings are clamped by the engine.
    pub wind_mms: i64,
    /// Bearing the wind comes FROM, in µdeg (meteorological convention).
    pub wind_dir_udeg: i64,
    /// Air temperature in milli-°C.
    pub air_temp_mc: i64,
    /// Air pressure in milli-hPa.
    pub air_pressure_mhpa: i64,
}

impl Weather {
    /// Admissible ranges: ±200 m/s of wind, wrapped direction, −200 °C to
    /// +150 °C, and 0 to 2000 hPa.
    pub open spec fn wf(self) -> bool {
        &&& -200_000 <= self.wind_mms <= 200_000
        &&& 0 <= self.wind_dir_udeg < 360_000_000
        &&& -200_000 <= self.air_temp_mc <= 150_000
        &&& 0 <= self.air_pressure_mhpa <= 2_000_000
    }
}

impl Weather {
    /// The wind component blowing against a rider travelling on
    /// `heading_udeg`, in mm/s; positive = headwind.
    pub fn headwind_component(&self, heading_udeg: i64) -> (r: i64)
        requires
            self.wf(),
            -2_000_000_000_000 <= heading_udeg <= 2_000_000_000_000,
        ensures
            r == headwind_spec(*self, heading_udeg as int),
            -200_000 <= r <= 200_000,
    {
        let delta = crate::geometry::wrap360(heading_udeg - self.wind_dir_udeg);
        let c = crate::geometry::cosine_pm(delta);
        proof {
            assert(-200_000_000_000int <= self.wind_mms * c <= 200_000_000_000int)
                by (nonlinear_arith)
                requires
                    -200_000 <= self.wind_mms <= 200_000,
                    -1_000_000 <= c <= 1_000_000,
            ;
        }
        let r = crate::geometry::div_trunc(self.wind_mms * c, 1_000_000);
        proof {
            assert(crate::geometry::abs_spec(self.wind_mms * c) <= 200_000 * 1_000_000int)
                by (nonlinear_arith)
                requires
                    -200_000 <= self.wind_mms <= 200_000,
                    -1_000_000 <= c <= 1_000_000,
            ;
            vstd::arithmetic::div_mod::lemma_div_is_ordered(
                crate::geometry::abs_spec(self.wind_mms * c),
                200_000_000_000int,
                1_000_000int,
            );
        }
        r
    }
}

impl Default for Weather {
    /// Calm, 0 °C, zero pressure; the density model clamps the derived air
    /// density into its plausible band, so even this degenerate weather is
    /// usable.
    fn default() -> (w: Weather)
        ensures
            w.wind_mms == 0 && w.wind_dir_udeg == 0,
            w.air_temp_mc == 0 && w.air_pressure_mhpa == 0,
            w.wf(),
    {
        Weather { wind_mms: 0, wind_dir_udeg: 0, air_temp_mc: 0, air_pressure_mhpa: 0 }
    }
}

/// Rider + bike physical parameters.
#[derive(Clone, Debug)]
pub struct Profile {
    /// Total system mass (rider + bike) in mg.
    pub total_weight_mg: Option<i64>,
    /// Bike category label; drives the CdA default.
    pub bike_type: Option<String>,
    /// Rolling-resistance coefficient in ppm.
    pub crr_ppm: Option<i64>,
    /// Frontal-drag coefficient CdA in ppm of m².
    pub cda_ppm: Option<i64>,
    /// Whether the coefficients come from a trusted calibration.
    pub calibrated: bool,
    /// Mean absolute error of that calibration, in mW.
    pub calibration_mae_mw: Option<i64>,
    /// Whether the coefficients are still mere estimates.
    pub estimat: bool,
}

impl Profile {
    /// Admissible ranges: up to 1000 kg of system mass, Crr below 0.1,
    /// CdA below 5 m², a non-negative calibration error.
    pub open spec fn wf(self) -> bool {
        &&& match self.total_weight_mg {
            Some(m) => 0 <= m <= 1_000_000_000,
            None => true,
        }
        &&& match self.crr_ppm {
            Some(c) => 0 <= c <= 100_000,
            None => true,
        }
        &&& match self.cda_ppm {
            Some(c) => 0 <= c <= 5_000_000,
            None => true,
        }
        &&& match self.calibration_mae_mw {
            Some(m) => 0 <= m,
            None => true,
        }
    }
}

impl Default for Profile {
    /// A blank profile: no known mass or coefficients, not calibrated,
    /// flagged as an estimate.
    fn default() -> (p: Profile)
        ensures
            p.total_weight_mg.is_none(),
            p.bike_type.is_none(),
            p.crr_ppm.is_none(),
            p.cda_ppm.is_none(),
            !p.calibrated,
            p.calibration_mae_mw.is_none(),
            p.estimat,
            p.wf(),
    {
        Profile {
            total_weight_mg: None,
            bike_type: None,
            crr_ppm: None,
            cda_ppm: None,
            calibrated: false,
            calibration_mae_mw: None,
            estimat: true,
        }
    }
}

} // verus!
