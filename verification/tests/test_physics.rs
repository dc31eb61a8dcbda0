use cyclegraph_core::models::{Sample, Weather};
use cyclegraph_core::{compute_indoor_power, compute_power, compute_power_with_wind, Profile};

fn flat_sample(t_ms: i64, v_mms: i64, altitude_mm: i64) -> Sample {
    Sample {
        t_ms,
        v_mms,
        altitude_mm,
        heading_udeg: Some(0),
        moving: true,
        ..Default::default()
    }
}

#[test]
fn test_gravity_power() {
    let samples = vec![
        flat_sample(0, 5_000, 100_000),
        flat_sample(1_000, 5_000, 101_000),
    ];

    let profile = Profile {
        total_weight_mg: Some(75_000_000),
        bike_type: Some("road".to_string()),
        crr_ppm: Some(5_000),
        estimat: false,
        ..Default::default()
    };

    let weather = Weather {
        wind_mms: 0,
        wind_dir_udeg: 0,
        air_temp_mc: 15_000,
        air_pressure_mhpa: 1_013_000,
    };

    let power = compute_power(&samples, &profile, &weather);
    assert!(power[0] > 0);
}

#[test]
fn test_physics_test_gravity_power() {
    let samples = vec![
        flat_sample(0, 5_000, 100_000),
        flat_sample(1_000, 5_000, 101_000),
    ];

    let profile = Profile {
        total_weight_mg: Some(75_000_000),
        bike_type: Some("road".to_string()),
        crr_ppm: Some(5_000),
        estimat: false,
        ..Default::default()
    };

    let weather = Weather {
        wind_mms: 0,
        wind_dir_udeg: 0,
        air_temp_mc: 15_000,
        air_pressure_mhpa: 1_013_000,
    };

    let power = compute_power(&samples, &profile, &weather);
    assert!(power[0] > 0);
}

#[test]
fn test_aero_power() {
    let samples = vec![
        flat_sample(0, 10_000, 100_000),
        flat_sample(1_000, 10_000, 100_000),
    ];

    let profile = Profile {
        total_weight_mg: Some(75_000_000),
        bike_type: Some("road".to_string()),
        crr_ppm: Some(5_000),
        estimat: false,
        ..Default::default()
    };

    let weather = Weather {
        wind_mms: 2_000,
        wind_dir_udeg: 180_000_000,
        air_temp_mc: 15_000,
        air_pressure_mhpa: 1_013_000,
    };

    let power = compute_power(&samples, &profile, &weather);
    assert!(power[0] > 0);
}

#[test]
fn test_physics_test_aero_power() {
    let samples = vec![
        flat_sample(0, 10_000, 100_000),
        flat_sample(1_000, 10_000, 100_000),
    ];

    let profile = Profile {
        total_weight_mg: Some(75_000_000),
        bike_type: Some("road".to_string()),
        crr_ppm: Some(5_000),
        estimat: false,
        ..Default::default()
    };

    let weather = Weather {
        wind_mms: 2_000,
        wind_dir_udeg: 180_000_000,
        air_temp_mc: 15_000,
        air_pressure_mhpa: 1_013_000,
    };

    let power = compute_power(&samples, &profile, &weather);
    assert!(power[0] > 0);
}

#[test]
fn test_acceleration_power() {
    let samples = vec![
        flat_sample(0, 5_000, 100_000),
        flat_sample(1_000, 6_000, 100_000),
    ];
    let profile = Profile {
        total_weight_mg: Some(75_000_000),
        crr_ppm: Some(4_000),
        ..Default::default()
    };
    let weather = Weather::default();

    let power = compute_power(&samples, &profile, &weather);
    assert!(power[1] > power[0]);
}

#[test]
fn test_indoor_power_with_device_watts() {
    let sample = Sample {
        device_watts_mw: Some(210_000),
        ..Default::default()
    };
    let profile = Profile::default();
    let watts = compute_indoor_power(&sample, &profile);
    assert_eq!(watts, 210_000);
}

#[test]
fn test_indoor_power_without_device_watts() {
    let sample = Sample {
        v_mms: 7_000,
        ..Default::default()
    };
    let profile = Profile {
        cda_ppm: Some(235_000),
        crr_ppm: Some(4_000),
        total_weight_mg: Some(75_000_000),
        ..Default::default()
    };
    let watts = compute_indoor_power(&sample, &profile);
    assert!(watts > 0);
    // ½·1.225·0.235·7³ + 75·9.80665·0.004·7, in mW.
    assert_eq!(watts, 69_963);
}

#[test]
fn test_v_rel_affects_aero_power() {
    // Two samples at 1 Hz, constant speed, flat altitude.
    let samples = vec![
        flat_sample(0, 10_000, 0),
        flat_sample(1_000, 10_000, 0),
    ];

    let profile = Profile::default();

    // Case A: no wind.
    let weather_nowind = Weather {
        wind_mms: 0,
        wind_dir_udeg: 0,
        air_temp_mc: 15_000,
        air_pressure_mhpa: 1_013_000,
    };

    // Case B: wind from dead ahead (heading 0, wind FROM 0): a headwind,
    // so v_rel = v_mid + wind and the aero load grows.
    let weather_with_wind = Weather {
        wind_mms: 5_000,
        wind_dir_udeg: 0,
        air_temp_mc: 15_000,
        air_pressure_mhpa: 1_013_000,
    };

    let out_nowind = compute_power_with_wind(&samples, &profile, &weather_nowind);
    let out_wind = compute_power_with_wind(&samples, &profile, &weather_with_wind);

    assert!(out_nowind.v_rel[0] > 0);
    assert!(
        out_wind.v_rel[0] > out_nowind.v_rel[0],
        "v_rel should grow under a headwind"
    );

    // Total power grows with v_rel (aero term is cubic in it).
    assert!(
        out_wind.power[0] > out_nowind.power[0],
        "aero/total power should be higher at a higher v_rel"
    );

    assert_eq!(out_nowind.power.len(), samples.len());
    assert_eq!(out_wind.power.len(), samples.len());
}

#[test]
fn flat_windless_cruise_matches_rolling_plus_drag() {
    // Flat, windless, constant 10 m/s, 300 samples, 75 kg, CdA 0.30,
    // Crr 0.005, 15 °C at 1013.25 hPa: per-sample power is the rolling
    // term (≈ 36.8 W) plus the drag term (≈ 183.75 W) — ≈ 220.5 W —
    // with the gravity and acceleration terms exactly zero.
    let samples: Vec<Sample> = (0..300)
        .map(|i| flat_sample(i * 1_000, 10_000, 0))
        .collect();
    let profile = Profile {
        total_weight_mg: Some(75_000_000),
        cda_ppm: Some(300_000),
        crr_ppm: Some(5_000),
        ..Default::default()
    };
    let weather = Weather {
        wind_mms: 0,
        wind_dir_udeg: 0,
        air_temp_mc: 15_000,
        air_pressure_mhpa: 1_013_250,
    };
    let out = compute_power_with_wind(&samples, &profile, &weather);
    assert_eq!(out.power.len(), 300);
    for i in 0..300 {
        assert_eq!(out.power[i], 220_525, "sample {}", i);
        assert_eq!(out.wind_rel[i], 0);
        assert_eq!(out.v_rel[i], 10_000);
    }
    // ≈ 220.5 W.
    assert!(out.power[0] > 219_000 && out.power[0] < 222_000);
}

#[test]
fn air_density_clamp_bounds_the_drag_term() {
    // Degenerate weather (zero pressure) clamps the density to the low
    // end of the plausible band, so the same ride costs less drag than
    // under sea-level conditions.
    let samples = vec![
        flat_sample(0, 10_000, 0),
        flat_sample(1_000, 10_000, 0),
    ];
    let profile = Profile {
        total_weight_mg: Some(75_000_000),
        cda_ppm: Some(300_000),
        crr_ppm: Some(5_000),
        ..Default::default()
    };
    let thin = compute_power(&samples, &profile, &Weather::default());
    let sea_level = compute_power(
        &samples,
        &profile,
        &Weather {
            wind_mms: 0,
            wind_dir_udeg: 0,
            air_temp_mc: 15_000,
            air_pressure_mhpa: 1_013_250,
        },
    );
    assert!(thin[0] < sea_level[0]);
    // Rolling (36.774 W) plus drag at the clamped 0.9 kg/m³ (135 W).
    assert_eq!(thin[0], 36_774 + 135_000);
}

#[test]
fn power_is_never_negative() {
    // Hard braking downhill: negative acceleration and falling altitude.
    let samples = vec![
        flat_sample(0, 15_000, 50_000),
        flat_sample(1_000, 5_000, 40_000),
        flat_sample(2_000, 0, 30_000),
        Sample {
            t_ms: 3_000,
            v_mms: -2_000,
            altitude_mm: 20_000,
            heading_udeg: Some(0),
            moving: false,
            ..Default::default()
        },
    ];
    let profile = Profile::default();
    let weather = Weather::default();
    let power = compute_power(&samples, &profile, &weather);
    assert_eq!(power.len(), 4);
    for p in power {
        assert!(p >= 0);
    }
}

#[test]
fn decompose_power_is_deterministic() {
    let samples: Vec<Sample> = (0..50)
        .map(|i| flat_sample(i * 1_000, 8_000 + 13 * i, 1_000 * i))
        .collect();
    let profile = Profile {
        total_weight_mg: Some(80_000_000),
        bike_type: Some("gravel".to_string()),
        ..Default::default()
    };
    let weather = Weather {
        wind_mms: 3_000,
        wind_dir_udeg: 45_000_000,
        air_temp_mc: 10_000,
        air_pressure_mhpa: 1_000_000,
    };
    let a = compute_power_with_wind(&samples, &profile, &weather);
    let b = compute_power_with_wind(&samples, &profile, &weather);
    assert_eq!(a.power, b.power);
    assert_eq!(a.wind_rel, b.wind_rel);
    assert_eq!(a.v_rel, b.v_rel);
}

#[test]
fn empty_segment_yields_empty_series() {
    let samples: Vec<Sample> = Vec::new();
    let out = compute_power_with_wind(&samples, &Profile::default(), &Weather::default());
    assert!(out.power.is_empty());
    assert!(out.wind_rel.is_empty());
    assert!(out.v_rel.is_empty());
}
