use flightrelay::units::{DistanceUnit, VelocityUnit};
use flightrelay::{Distance, Velocity};

#[test]
fn distance_units_split() {
    assert_eq!(Distance::split_unit("180.5m"), Some((DistanceUnit::Meters, "180.5")));
    assert_eq!(Distance::split_unit("42.67mm"), Some((DistanceUnit::Millimeters, "42.67")));
    assert_eq!(Distance::split_unit("30cm"), Some((DistanceUnit::Centimeters, "30")));
    assert_eq!(Distance::split_unit("9ft"), Some((DistanceUnit::Feet, "9")));
    assert_eq!(Distance::split_unit("0.47in"), Some((DistanceUnit::Inches, "0.47")));
    assert_eq!(Distance::split_unit("197.4yd"), Some((DistanceUnit::Yards, "197.4")));
}

#[test]
fn distance_split_trims() {
    assert_eq!(Distance::split_unit("  3 m  "), Some((DistanceUnit::Meters, "3")));
    assert_eq!(Distance::split_unit("m"), Some((DistanceUnit::Meters, "")));
}

#[test]
fn distance_split_rejects_unknown_suffix() {
    assert_eq!(Distance::split_unit("180.5"), None);
    assert_eq!(Distance::split_unit("180.5km "), Some((DistanceUnit::Meters, "180.5k")));
    assert_eq!(Distance::split_unit("12 parsecs"), None);
    assert_eq!(Distance::split_unit(""), None);
}

#[test]
fn velocity_units_split() {
    assert_eq!(Velocity::split_unit("67.2mps"), Some((VelocityUnit::MetersPerSecond, "67.2")));
    assert_eq!(Velocity::split_unit("150.3mph"), Some((VelocityUnit::MilesPerHour, "150.3")));
    assert_eq!(Velocity::split_unit("108.0kph"), Some((VelocityUnit::KilometersPerHour, "108.0")));
    assert_eq!(Velocity::split_unit(" 100fps"), Some((VelocityUnit::FeetPerSecond, "100")));
    assert_eq!(Velocity::split_unit("100m/s"), None);
}

#[test]
fn suffixes_and_values() {
    let d = Distance::Meters(180.5f64.to_bits());
    assert_eq!(d.unit_suffix(), "m");
    assert_eq!(f64::from_bits(d.value()), 180.5);
    assert_eq!(d.unit(), DistanceUnit::Meters);
    assert_eq!(Distance::Millimeters(1).unit_suffix(), "mm");
    assert_eq!(Distance::Centimeters(1).unit_suffix(), "cm");
    assert_eq!(Distance::Feet(1).unit_suffix(), "ft");
    assert_eq!(Distance::Inches(1).unit_suffix(), "in");
    assert_eq!(Distance::Yards(1).unit_suffix(), "yd");
    let v = Velocity::MetersPerSecond(67.2f64.to_bits());
    assert_eq!(v.unit_suffix(), "mps");
    assert_eq!(f64::from_bits(v.value()), 67.2);
    assert_eq!(Velocity::MilesPerHour(0).unit_suffix(), "mph");
    assert_eq!(Velocity::FeetPerSecond(0).unit_suffix(), "fps");
    assert_eq!(Velocity::KilometersPerHour(0).unit_suffix(), "kph");
}

#[test]
fn constructors_match_variants() {
    assert_eq!(Distance::new(DistanceUnit::Yards, 7), Distance::Yards(7));
    assert_eq!(Velocity::new(VelocityUnit::KilometersPerHour, 9), Velocity::KilometersPerHour(9));
}

#[test]
fn text_roundtrip_of_units() {
    let distances = [
        Distance::Meters(180.5f64.to_bits()),
        Distance::Yards(197.4f64.to_bits()),
        Distance::Feet(9.0f64.to_bits()),
        Distance::Inches(0.47f64.to_bits()),
        Distance::Centimeters(30.0f64.to_bits()),
        Distance::Millimeters(42.67f64.to_bits()),
    ];
    for d in distances {
        let number = format!("{}", f64::from_bits(d.value()));
        let text = format!("{}{}", number, d.unit_suffix());
        let (unit, n) = Distance::split_unit(&text).unwrap();
        assert_eq!(Distance::new(unit, n.parse::<f64>().unwrap().to_bits()), d);
    }
    let velocities = [
        Velocity::MetersPerSecond(67.2f64.to_bits()),
        Velocity::MilesPerHour(150.3f64.to_bits()),
        Velocity::KilometersPerHour(108.0f64.to_bits()),
        Velocity::FeetPerSecond(100.0f64.to_bits()),
    ];
    for v in velocities {
        let text = format!("{}{}", f64::from_bits(v.value()), v.unit_suffix());
        let (unit, n) = Velocity::split_unit(&text).unwrap();
        assert_eq!(Velocity::new(unit, n.parse::<f64>().unwrap().to_bits()), v);
    }
}
