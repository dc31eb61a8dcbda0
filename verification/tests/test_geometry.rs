use cyclegraph_core::models::{Sample, Weather};
use cyclegraph_core::{
    apparent_air_speed, cg_along_wind_component, cg_relative_air_speed, cg_wrap360, wrap360,
};

#[test]
fn relative_air_speed_tail_vs_headwind() {
    let v = 10_000; // 10 m/s
    let wind = 5_000; // 5 m/s
    let heading = 90_000_000; // east

    let v_air_tail = cg_relative_air_speed(v, heading, heading + 180_000_000, wind);
    let v_air_head = cg_relative_air_speed(v, heading, heading, wind);

    assert_eq!(v_air_tail, 5_000);
    assert_eq!(v_air_head, 15_000);

    let along_tail = cg_along_wind_component(heading, heading + 180_000_000, wind);
    let along_head = cg_along_wind_component(heading, heading, wind);
    assert!(along_tail > 0 && along_tail == 5_000);
    assert!(along_head < 0 && along_head == -5_000);
}

#[test]
fn test_apparent_air_speed_sign() {
    let v = 10_000;
    let w = 5_000;
    let h = 90_000_000; // east

    let v_air_tail = apparent_air_speed(v, h, 270_000_000, w);
    assert_eq!(v_air_tail, 5_000);

    let v_air_head = apparent_air_speed(v, h, 90_000_000, w);
    assert_eq!(v_air_head, 15_000);
}

#[test]
fn relative_air_speed_never_drops_below_floor() {
    // A strong tailwind cannot push the relative airspeed below 0.1 m/s.
    let v = 3_000;
    let r = cg_relative_air_speed(v, 0, 180_000_000, 20_000);
    assert_eq!(r, 100);
}

#[test]
fn wrap360_folds_into_a_full_turn() {
    assert_eq!(wrap360(0), 0);
    assert_eq!(wrap360(360_000_000), 0);
    assert_eq!(wrap360(-90_000_000), 270_000_000);
    assert_eq!(wrap360(725_000_000), 5_000_000);
    assert_eq!(cg_wrap360(-90_000_000), wrap360(-90_000_000));
}

#[test]
fn test_headwind_component() {
    let weather = Weather {
        wind_mms: 5_000,
        wind_dir_udeg: 0,
        ..Default::default()
    };
    let heading_udeg = 0;
    let headwind = weather.headwind_component(heading_udeg);
    assert!((headwind - 5_000).abs() < 100);
}

#[test]
fn crosswind_has_no_along_path_component() {
    // Wind from the east while riding north: the along-path part is ~0.
    let along = cg_along_wind_component(0, 90_000_000, 5_000);
    assert!(along.abs() < 50);
}

#[test]
fn test_heading_north() {
    let s1 = Sample {
        latitude_udeg: Some(59_000_000),
        longitude_udeg: Some(10_000_000),
        ..Default::default()
    };
    let s2 = Sample {
        latitude_udeg: Some(59_001_000),
        longitude_udeg: Some(10_000_000),
        ..Default::default()
    };
    let heading = s1.heading_to(&s2).unwrap();
    assert!(heading.abs() < 1_000_000); // north
}

#[test]
fn test_heading_east() {
    let s1 = Sample {
        latitude_udeg: Some(59_000_000),
        longitude_udeg: Some(10_000_000),
        ..Default::default()
    };
    let s2 = Sample {
        latitude_udeg: Some(59_000_000),
        longitude_udeg: Some(10_001_000),
        ..Default::default()
    };
    let heading = s1.heading_to(&s2).unwrap();
    assert!((heading - 90_000_000).abs() < 1_000_000); // east
}

#[test]
fn heading_covers_all_quadrants() {
    let fix = |lat: i64, lon: i64| Sample {
        latitude_udeg: Some(lat),
        longitude_udeg: Some(lon),
        ..Default::default()
    };
    let origin = fix(45_000_000, 10_000_000);
    let south = origin.heading_to(&fix(44_999_000, 10_000_000)).unwrap();
    assert!((south - 180_000_000).abs() < 1_000_000);
    let west = origin.heading_to(&fix(45_000_000, 9_999_000)).unwrap();
    assert!((west - 270_000_000).abs() < 1_000_000);
    let north_east = origin.heading_to(&fix(45_001_000, 10_001_414)).unwrap();
    assert!(north_east > 30_000_000 && north_east < 60_000_000);
    let south_west = origin.heading_to(&fix(44_999_000, 9_998_586)).unwrap();
    assert!(south_west > 210_000_000 && south_west < 240_000_000);
}

#[test]
fn heading_needs_both_fixes() {
    let s1 = Sample {
        latitude_udeg: Some(59_000_000),
        longitude_udeg: Some(10_000_000),
        ..Default::default()
    };
    let s2 = Sample::default();
    assert!(s1.heading_to(&s2).is_none());
}
