//! Estimation of a cyclist's power output from motion telemetry and weather.
//!
//! All physical quantities are held as scaled integers so that every
//! computation is exact and deterministic: time in milliseconds, speed in
//! mm/s, altitude in millimeters, angles in microdegrees, mass in
//! milligrams, power in milliwatts, and dimensionless coefficients
//! (Crr, CdA, air density, trigonometric ratios) in parts per million.

pub mod calibration;
pub mod geometry;
pub mod labels;
pub mod models;
pub mod physics;
pub mod smoothing;

pub use calibration::{fit_cda_crr, CalibrationRejection, CalibrationResult};
pub use geometry::{
    apparent_air_speed, cg_along_wind_component, cg_relative_air_speed, cg_wrap360, wrap360,
};
pub use models::{Profile, Sample, Weather};
pub use physics::{
    compute_indoor_power, compute_power, compute_power_with_wind, estimate_crr, total_mass,
    PowerOutputs,
};
pub use smoothing::smooth_altitude;
