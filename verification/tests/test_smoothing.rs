use cyclegraph_core::models::Sample;
use cyclegraph_core::smoothing::smooth_altitude;

fn alt_sample(t_ms: i64, altitude_mm: i64) -> Sample {
    Sample {
        t_ms,
        v_mms: 0,
        altitude_mm,
        moving: true,
        ..Default::default()
    }
}

#[test]
fn test_smooth_altitude() {
    let samples = vec![
        alt_sample(0, 100_000),
        alt_sample(1_000, 200_000), // outlier
        alt_sample(2_000, 102_000),
    ];

    let smoothed = smooth_altitude(&samples);
    assert!(smoothed[1] < 150_000); // outlier suppressed
}

#[test]
fn test_smoothing_test_smooth_altitude() {
    let samples = vec![
        alt_sample(0, 100_000),
        alt_sample(1_000, 200_000), // outlier
        alt_sample(2_000, 102_000),
    ];

    let smoothed = smooth_altitude(&samples);
    assert!(smoothed[1] < 150_000); // outlier suppressed
}

#[test]
fn constant_series_is_unchanged() {
    let samples: Vec<Sample> = (0..10).map(|i| alt_sample(i * 1_000, 123_456)).collect();
    let smoothed = smooth_altitude(&samples);
    assert_eq!(smoothed, vec![123_456; 10]);
}

#[test]
fn single_spike_is_replaced_by_its_neighbours() {
    let samples = vec![
        alt_sample(0, 100_000),
        alt_sample(1_000, 175_000), // single-sample spike
        alt_sample(2_000, 100_000),
    ];
    let smoothed = smooth_altitude(&samples);
    assert_eq!(smoothed, vec![100_000, 100_000, 100_000]);
}

#[test]
fn length_is_preserved_and_empty_input_allowed() {
    let empty: Vec<Sample> = Vec::new();
    assert!(smooth_altitude(&empty).is_empty());

    let one = vec![alt_sample(0, 42_000)];
    assert_eq!(smooth_altitude(&one), vec![42_000]);

    let ramp: Vec<Sample> = (0..7).map(|i| alt_sample(i * 1_000, i * 500)).collect();
    let smoothed = smooth_altitude(&ramp);
    assert_eq!(smoothed.len(), 7);
    // A monotone ramp survives the median untouched.
    for i in 0..7 {
        assert_eq!(smoothed[i], (i as i64) * 500);
    }
}
