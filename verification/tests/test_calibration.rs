use cyclegraph_core::calibration::{apply_calibration_to_profile, CalibrationRejection};
use cyclegraph_core::models::{Sample, Weather};
use cyclegraph_core::{compute_power, fit_cda_crr, Profile};

fn make_weather() -> Weather {
    Weather {
        wind_mms: 2_000,
        wind_dir_udeg: 180_000_000,
        air_temp_mc: 15_000,
        air_pressure_mhpa: 1_013_000,
    }
}

fn make_samples(n: usize) -> Vec<Sample> {
    // 1 Hz, gently rising speed, a steady climb of 0.5 m per second.
    (0..n)
        .map(|i| Sample {
            t_ms: (i as i64) * 1_000,
            v_mms: 6_000 + (i as i64) * 10,
            altitude_mm: 100_000 + (i as i64) * 500,
            heading_udeg: Some(0),
            moving: true,
            ..Default::default()
        })
        .collect()
}

#[test]
fn test_fit_cda_crr_recovers_known_crr_with_noise() {
    let weather = make_weather();

    // Ground-truth profile used to synthesise the "measured" series.
    let mut gt_profile = Profile::default();
    let gt_crr = 5_500; // 0.0055
    gt_profile.crr_ppm = Some(gt_crr);

    // 300 samples ≈ 5 min at 1 Hz.
    let samples = make_samples(300);

    // "Measured" power from the model itself plus a deterministic
    // ±1.5 W sawtooth.
    let model = compute_power(&samples, &gt_profile, &weather);
    let measured: Vec<Option<i64>> = model
        .iter()
        .enumerate()
        .map(|(i, w)| {
            let noise = if i % 2 == 0 { 1_500 } else { -1_500 };
            Some(w + noise)
        })
        .collect();

    // Starting profile, deliberately a little off.
    let mut start_profile = Profile::default();
    start_profile.crr_ppm = Some(5_000);

    let result = fit_cda_crr(&samples, &measured, &start_profile, &weather);

    assert!(
        result.calibrated,
        "expected calibrated=true when the MAE stays under 10% of the average power"
    );
    // The grid runs 0.003–0.008 in steps of 0.001.
    assert!(
        (result.crr_ppm - gt_crr).abs() <= 1_000,
        "Crr mismatch: got {}, expected ~{}",
        result.crr_ppm,
        gt_crr
    );

    // The same threshold the fit applies.
    let avg: i64 =
        measured.iter().map(|m| m.unwrap()).sum::<i64>() / measured.len() as i64;
    assert!(
        result.mae_mw * 10 < avg,
        "MAE too high: {} vs 10% of avg {}",
        result.mae_mw,
        avg
    );
}

#[test]
fn test_fit_cda_crr_insufficient_segment() {
    let weather = make_weather();
    let samples = make_samples(120); // < 300: insufficient_segment
    let measured: Vec<Option<i64>> = vec![Some(250_000); samples.len()];

    let mut profile = Profile::default();
    profile.crr_ppm = Some(5_000);

    let result = fit_cda_crr(&samples, &measured, &profile, &weather);
    assert!(!result.calibrated);
    assert_eq!(result.mae_mw, 0);
    assert_eq!(result.reason, Some(CalibrationRejection::InsufficientSegment));
    assert_eq!(result.reason.unwrap().label(), "insufficient_segment");
}

#[test]
fn too_short_wins_over_length_mismatch() {
    // A segment that is both too short and mismatched against the
    // measured series rejects on the first rule.
    let weather = make_weather();
    let samples = make_samples(50);
    let measured: Vec<Option<i64>> = vec![Some(250_000); 40];

    let result = fit_cda_crr(&samples, &measured, &Profile::default(), &weather);
    assert!(!result.calibrated);
    assert_eq!(result.reason, Some(CalibrationRejection::InsufficientSegment));
}

#[test]
fn mismatched_measured_length_is_rejected() {
    let weather = make_weather();
    let samples = make_samples(300);
    let measured: Vec<Option<i64>> = vec![Some(250_000); 299];

    let result = fit_cda_crr(&samples, &measured, &Profile::default(), &weather);
    assert!(!result.calibrated);
    assert_eq!(
        result.reason,
        Some(CalibrationRejection::LengthMismatchModelVsMeasured)
    );
    assert_eq!(
        result.reason.unwrap().label(),
        "length_mismatch_model_vs_measured"
    );
}

#[test]
fn non_finite_measured_power_is_rejected() {
    let weather = make_weather();
    let samples = make_samples(300);
    let mut measured: Vec<Option<i64>> = vec![Some(250_000); 300];
    measured[123] = None; // one non-finite reading

    let result = fit_cda_crr(&samples, &measured, &Profile::default(), &weather);
    assert!(!result.calibrated);
    assert_eq!(result.reason, Some(CalibrationRejection::NonFiniteMeasuredPower));
    assert_eq!(result.reason.unwrap().label(), "non_finite_measured_power");
}

#[test]
fn indoor_session_is_rejected() {
    // 300 samples, no GPS on any of them, altitude range under 0.5 m.
    let weather = make_weather();
    let samples: Vec<Sample> = (0..300)
        .map(|i| Sample {
            t_ms: (i as i64) * 1_000,
            v_mms: 8_000,
            altitude_mm: 100_000 + (i as i64 % 3) * 100, // 0.3 m of wobble
            heading_udeg: Some(0),
            moving: true,
            ..Default::default()
        })
        .collect();
    let measured: Vec<Option<i64>> = vec![Some(250_000); 300];

    let result = fit_cda_crr(&samples, &measured, &Profile::default(), &weather);
    assert!(!result.calibrated);
    assert_eq!(result.reason, Some(CalibrationRejection::IndoorSession));
    assert_eq!(result.reason.unwrap().label(), "indoor_session");
}

#[test]
fn outdoor_segment_with_gps_is_not_indoor() {
    // The same flat segment with GPS fixes calibrates normally (no
    // rejection reason), because the indoor rule needs GPS to be absent.
    let weather = make_weather();
    let samples: Vec<Sample> = (0..300)
        .map(|i| Sample {
            t_ms: (i as i64) * 1_000,
            v_mms: 8_000,
            altitude_mm: 100_000,
            heading_udeg: Some(0),
            moving: true,
            latitude_udeg: Some(59_000_000),
            longitude_udeg: Some(10_000_000 + i as i64 * 10),
            ..Default::default()
        })
        .collect();
    let measured: Vec<Option<i64>> = vec![Some(250_000); 300];

    let result = fit_cda_crr(&samples, &measured, &Profile::default(), &weather);
    assert!(result.reason.is_none());
}

#[test]
fn calibrate_is_deterministic() {
    let weather = make_weather();
    let samples = make_samples(300);
    let measured: Vec<Option<i64>> =
        (0..300).map(|i| Some(200_000 + (i % 7) * 1_000)).collect();
    let profile = Profile::default();

    let a = fit_cda_crr(&samples, &measured, &profile, &weather);
    let b = fit_cda_crr(&samples, &measured, &profile, &weather);
    assert_eq!(a.cda_ppm, b.cda_ppm);
    assert_eq!(a.crr_ppm, b.crr_ppm);
    assert_eq!(a.mae_mw, b.mae_mw);
    assert_eq!(a.calibrated, b.calibrated);
    assert_eq!(a.reason, b.reason);
}

#[test]
fn calibration_result_merges_into_profile() {
    let weather = make_weather();
    let samples = make_samples(300);
    let mut gt_profile = Profile::default();
    gt_profile.crr_ppm = Some(6_000);
    let model = compute_power(&samples, &gt_profile, &weather);
    let measured: Vec<Option<i64>> = model.iter().map(|w| Some(*w)).collect();

    let mut profile = Profile::default();
    let result = fit_cda_crr(&samples, &measured, &profile, &weather);
    assert!(result.calibrated);

    apply_calibration_to_profile(&mut profile, &result);
    assert_eq!(profile.cda_ppm, Some(result.cda_ppm));
    assert_eq!(profile.crr_ppm, Some(result.crr_ppm));
    assert_eq!(profile.calibration_mae_mw, Some(result.mae_mw));
    assert!(profile.calibrated);
    assert!(!profile.estimat);
}
