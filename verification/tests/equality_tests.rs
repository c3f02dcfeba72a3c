use flightrelay::equality::numbers_equal;
use flightrelay::{BallFlight, CompletedShot, Distance, FaceImpact, ShotKey, Velocity};

fn ball(spin: Option<i32>, azimuth: f64) -> BallFlight {
    BallFlight {
        launch_speed: Some(Velocity::MetersPerSecond(67.2f64.to_bits())),
        launch_azimuth: Some(azimuth.to_bits()),
        launch_elevation: None,
        carry_distance: Some(Distance::Meters(180.5f64.to_bits())),
        total_distance: None,
        roll_distance: None,
        max_height: None,
        flight_time: None,
        backspin_rpm: spin,
        sidespin_rpm: None,
    }
}

#[test]
fn numbers_compare_as_reals() {
    assert!(numbers_equal(0.0f64.to_bits(), (-0.0f64).to_bits()));
    assert!(!numbers_equal(f64::NAN.to_bits(), f64::NAN.to_bits()));
    assert!(numbers_equal(1.5f64.to_bits(), 1.5f64.to_bits()));
    assert!(!numbers_equal(1.5f64.to_bits(), 2.5f64.to_bits()));
    assert!(numbers_equal(f64::INFINITY.to_bits(), f64::INFINITY.to_bits()));
}

#[test]
fn distances_compare_as_reals() {
    assert_eq!(Distance::Meters(0.0f64.to_bits()), Distance::Meters((-0.0f64).to_bits()));
    assert_ne!(Distance::Meters(f64::NAN.to_bits()), Distance::Meters(f64::NAN.to_bits()));
    assert_ne!(Distance::Meters(1.0f64.to_bits()), Distance::Feet(1.0f64.to_bits()));
    assert_ne!(Velocity::MilesPerHour(f64::NAN.to_bits()), Velocity::MilesPerHour(f64::NAN.to_bits()));
    assert_eq!(Velocity::FeetPerSecond(0.0f64.to_bits()), Velocity::FeetPerSecond((-0.0f64).to_bits()));
}

#[test]
fn measurements_compare_as_reals() {
    assert_eq!(ball(Some(3200), 0.0), ball(Some(3200), -0.0));
    assert_ne!(ball(Some(3200), f64::NAN), ball(Some(3200), f64::NAN));
    assert_ne!(ball(Some(3200), 1.0), ball(Some(2500), 1.0));
    let impact = FaceImpact { lateral: Some(Distance::Inches(0.31f64.to_bits())), vertical: None };
    assert_eq!(impact, impact);
    let shot = |b: BallFlight| CompletedShot {
        device: "Dev".into(),
        key: ShotKey { shot_id: "id".into(), shot_number: 1 },
        ball: Some(b),
        club: None,
        impact: None,
    };
    assert_eq!(shot(ball(None, 0.0)), shot(ball(None, -0.0)));
    assert_ne!(shot(ball(None, f64::NAN)), shot(ball(None, f64::NAN)));
}
